//! Diagnostic counters of the audio driver, in the order in which a client reads them.
use crate::bytes;
use crate::ks;
use crate::ks::PCPROPERTY_REQUEST;
use crate::status::{NTSTATUS, STATUS_BUFFER_TOO_SMALL, STATUS_INVALID_PARAMETER, STATUS_SUCCESS};
use crate::topology;
use vstd::prelude::*;

verus! {

/// Initialisations.
pub const INIT_CALLS: usize = 0;

/// Streams asked for.
pub const NEW_STREAM_CALLS: usize = 1;

/// Stream formats proposed.
pub const SET_FORMAT_CALLS: usize = 2;

/// Stream formats taken.
pub const SET_FORMAT_OK: usize = 3;

/// Tag of the last proposed stream format.
pub const LAST_TAG: usize = 4;

/// Its channels.
pub const LAST_CHANNELS: usize = 5;

/// Its sample rate.
pub const LAST_RATE: usize = 6;

/// Its bits per sample.
pub const LAST_BITS: usize = 7;

/// Its size.
pub const LAST_FORMAT_SIZE: usize = 8;

/// The status it was answered with.
pub const LAST_STATUS: usize = 9;

/// Data range intersections asked for.
pub const RANGE_CALLS: usize = 10;

/// Intersections found.
pub const RANGE_OK: usize = 11;

/// Device formats proposed.
pub const PROPOSED_SET: usize = 12;

/// Device formats asked for.
pub const PROPOSED_GET: usize = 13;

/// Tag of the last proposed device format.
pub const PROPOSED_LAST_TAG: usize = 14;

/// Major format of the last intersection.
pub const RANGE_LAST_MAJOR: usize = 15;

/// Its sub-format.
pub const RANGE_LAST_SUB: usize = 16;

/// Its specifier.
pub const RANGE_LAST_SPEC: usize = 17;

/// Its format size.
pub const RANGE_LAST_FSIZE: usize = 18;

/// The room it had for the result.
pub const RANGE_LAST_OUTLEN: usize = 19;

/// The status it was refused with.
pub const RANGE_LAST_STATUS: usize = 20;

/// Interfaces asked for.
pub const QI_COUNT: usize = 21;

/// Interfaces handed out.
pub const QI_OK: usize = 22;

/// The first of eight slots with the identifiers asked for last.
pub const QI_RECENT: usize = 23;

/// 1 once an intersection was found.
pub const RANGE_OK_SEEN: usize = 31;

/// Proposed device formats that match.
pub const PROPOSED_SET_OK: usize = 32;

/// Mix formats asked for.
pub const AE_GET_MIX_FORMAT: usize = 33;

/// Stored device formats asked for.
pub const AE_GET_DEVICE_FORMAT: usize = 34;

/// Device formats set.
pub const AE_SET_DEVICE_FORMAT: usize = 35;

/// The status the last one was answered with.
pub const AE_SET_STATUS: usize = 36;

/// Tag of the stored device format.
pub const AE_STORED_TAG: usize = 37;

/// Its sample rate.
pub const AE_STORED_RATE: usize = 38;

/// Its bits per sample.
pub const AE_STORED_BITS: usize = 39;

/// The engine method that failed last.
pub const AE_LAST_FAIL_IDX: usize = 40;

/// Its status.
pub const AE_LAST_FAIL_STATUS: usize = 41;

/// The room the last answer with a device format needed.
pub const PROPOSED_GET_SIZE: usize = 42;

/// The length of the attribute list in it.
pub const PROPOSED_ATTR_LEN: usize = 43;

/// The kind of format whose size was asked for last.
pub const AE_FMT_TYPE: usize = 44;

/// The size that was answered.
pub const AE_FMT_SIZE_OUT: usize = 45;

/// The size of the last buffer with a device format.
pub const AE_SET_BUF_SIZE: usize = 46;

/// Mode lists asked for.
pub const MODES_CALLS: usize = 47;

/// The pin of the last one.
pub const MODES_LAST_PIN: usize = 48;

/// The room it had.
pub const MODES_LAST_COUNT: usize = 49;

/// Sample rate of the last proposed device format.
pub const PROPOSED_LAST_RATE: usize = 50;

/// Its bits per sample.
pub const PROPOSED_LAST_BITS: usize = 51;

/// Proposed device formats that do not match.
pub const PROPOSED_SET_REJECT: usize = 52;

/// The first of the sixteen call counts of the engine methods.
pub const AE_CALLS: usize = 53;

/// The number of counters.
pub const STATS_COUNT: usize = 69;

/// The bytes of a snapshot.
pub const STATS_SIZE: u32 = 276;

/// The counters.
pub struct DebugStats {
    vals: Vec<u32>,
}

/// The next count; counts wrap around.
pub open spec fn next_count(x: u32) -> u32 {
    if x == u32::MAX {
        0
    } else {
        (x + 1) as u32
    }
}

/// The counters after one more of `i`.
pub open spec fn counted(s: Seq<u32>, i: int) -> Seq<u32> {
    s.update(i, next_count(s[i]))
}

/// The counters after engine method number `method` returned `status`: one more call, and the
/// method and status remembered where it failed.
pub open spec fn ticked(s: Seq<u32>, method: int, status: NTSTATUS) -> Seq<u32> {
    let calls = counted(s, AE_CALLS + method);
    if status < 0 {
        calls.update(AE_LAST_FAIL_IDX as int, method as u32).update(
            AE_LAST_FAIL_STATUS as int,
            bytes::bits32(status),
        )
    } else {
        calls
    }
}

/// The counters after an interface was asked for whose identifier starts with `d1`.
pub open spec fn asked(s: Seq<u32>, d1: u32) -> Seq<u32> {
    counted(s, QI_COUNT as int).update(QI_RECENT + s[QI_COUNT as int] % 8, d1)
}

/// The bytes of a row of numbers.
pub open spec fn words_bytes(s: Seq<u32>) -> Seq<u8>
    decreases s.len(),
{
    if s.len() == 0 {
        Seq::empty()
    } else {
        words_bytes(s.drop_last()) + bytes::le32(s.last())
    }
}

/// A row of numbers has four bytes for each.
pub proof fn lemma_words_len(s: Seq<u32>)
    ensures
        words_bytes(s).len() == 4 * s.len(),
    decreases s.len(),
{
    if s.len() > 0 {
        lemma_words_len(s.drop_last());
    }
}

/// Number `i` of a row stands at byte `4 * i`.
pub proof fn law_snapshot_reads_back(s: Seq<u32>, i: int)
    requires
        0 <= i < s.len(),
    ensures
        words_bytes(s).len() == 4 * s.len(),
        bytes::dword_at(words_bytes(s), 4 * i) == s[i],
    decreases s.len(),
{
    lemma_words_len(s);
    lemma_words_len(s.drop_last());
    let b = words_bytes(s);
    let front = words_bytes(s.drop_last());
    if i == s.len() - 1 {
        bytes::lemma_le32_read_back(s.last());
        bytes::lemma_dword_of_part(b, 4 * i, bytes::le32(s.last()));
    } else {
        law_snapshot_reads_back(s.drop_last(), i);
        let part = front.subrange(4 * i, 4 * i + 4);
        assert(b.subrange(4 * i, 4 * i + 4) =~= part);
        bytes::lemma_dword_of_part(b, 4 * i, part);
        bytes::lemma_dword_of_part(front, 4 * i, part);
    }
}

/// The answer to a request for the counters: a snapshot for a reader with room for it, the room
/// it takes for a reader with less.
pub open spec fn stats_answer(s: Seq<u32>, req: PCPROPERTY_REQUEST) -> topology::Answer {
    if req.Value is None || req.Verb & ks::KSPROPERTY_TYPE_GET == 0 {
        topology::refused(req, STATUS_INVALID_PARAMETER)
    } else if req.ValueSize < STATS_SIZE {
        topology::Answer {
            status: STATUS_BUFFER_TOO_SMALL,
            value: topology::value_bytes(req),
            size: STATS_SIZE,
        }
    } else {
        topology::answered(req, words_bytes(s))
    }
}

impl View for DebugStats {
    type V = Seq<u32>;

    closed spec fn view(&self) -> Seq<u32> {
        self.vals@
    }
}

impl DebugStats {
    /// All counters are there.
    pub open spec fn wf(&self) -> bool {
        self@.len() == STATS_COUNT
    }

    /// No calls yet: counts are 0, and nothing was remembered.
    pub fn new() -> (stats: Self)
        ensures
            stats.wf(),
            forall|i: int|
                0 <= i < STATS_COUNT ==> #[trigger] stats@[i] == if i == AE_LAST_FAIL_IDX || i
                    == AE_FMT_TYPE || i == MODES_LAST_PIN {
                    u32::MAX
                } else {
                    0
                },
    {
        let mut vals: Vec<u32> = Vec::new();
        let mut i: usize = 0;
        while i < STATS_COUNT
            invariant
                i <= STATS_COUNT,
                vals@.len() == i,
                forall|k: int| 0 <= k < i ==> vals@[k] == 0,
            decreases STATS_COUNT - i,
        {
            vals.push(0);
            i = i + 1;
        }
        vals.set(AE_LAST_FAIL_IDX, u32::MAX);
        vals.set(AE_FMT_TYPE, u32::MAX);
        vals.set(MODES_LAST_PIN, u32::MAX);
        DebugStats { vals }
    }

    /// The value of counter `i`.
    pub fn get(&self, i: usize) -> (x: u32)
        requires
            self.wf(),
            i < STATS_COUNT,
        ensures
            x == self@[i as int],
    {
        self.vals[i]
    }

    /// Remembers `x` under `i`.
    pub fn put(&mut self, i: usize, x: u32)
        requires
            old(self).wf(),
            i < STATS_COUNT,
        ensures
            final(self).wf(),
            final(self)@ == old(self)@.update(i as int, x),
    {
        self.vals.set(i, x);
    }

    /// Counts one more of `i`.
    pub fn dbg_inc(&mut self, i: usize)
        requires
            old(self).wf(),
            i < STATS_COUNT,
        ensures
            final(self).wf(),
            final(self)@ == counted(old(self)@, i as int),
    {
        let x: u32 = self.vals[i];
        let next: u32 = if x == u32::MAX {
            0
        } else {
            x + 1
        };
        self.vals.set(i, next);
    }

    /// Counts a call of engine method number `idx` and remembers a failure.
    pub fn ae_tick(&mut self, idx: usize, status: NTSTATUS)
        requires
            old(self).wf(),
            idx < 16,
        ensures
            final(self).wf(),
            final(self)@ == ticked(old(self)@, idx as int, status),
    {
        self.dbg_inc(AE_CALLS + idx);
        if status < 0 {
            self.put(AE_LAST_FAIL_IDX, idx as u32);
            self.put(AE_LAST_FAIL_STATUS, bytes::status_bits(status));
        }
    }

    /// Counts a request for an interface and remembers its identifier among the last eight.
    pub fn note_query(&mut self, d1: u32)
        requires
            old(self).wf(),
        ensures
            final(self).wf(),
            final(self)@ == asked(old(self)@, d1),
    {
        let n: u32 = self.vals[QI_COUNT];
        self.dbg_inc(QI_COUNT);
        self.put(QI_RECENT + (n % 8) as usize, d1);
    }

    /// All counters, as bytes.
    pub fn snapshot(&self) -> (out: Vec<u8>)
        requires
            self.wf(),
        ensures
            out@ == words_bytes(self@),
            out@.len() == STATS_SIZE,
    {
        let mut out: Vec<u8> = Vec::new();
        let mut i: usize = 0;
        while i < STATS_COUNT
            invariant
                i <= STATS_COUNT,
                self.wf(),
                out@ == words_bytes(self@.subrange(0, i as int)),
            decreases STATS_COUNT - i,
        {
            bytes::push_u32(&mut out, self.vals[i]);
            i = i + 1;
            proof {
                let s = self@.subrange(0, i as int);
                assert(s.drop_last() =~= self@.subrange(0, i - 1));
            }
        }
        proof {
            assert(self@.subrange(0, STATS_COUNT as int) =~= self@);
            lemma_words_len(self@);
        }
        out
    }

    /// Answers a request for the counters.
    pub fn vdev_debug_property_handler(&self, req: &mut PCPROPERTY_REQUEST) -> (status: NTSTATUS)
        requires
            self.wf(),
            topology::is_request(*old(req)),
        ensures
            status == stats_answer(self@, *old(req)).status,
            topology::value_bytes(*final(req)) == stats_answer(self@, *old(req)).value,
            final(req).ValueSize == stats_answer(self@, *old(req)).size,
            topology::same_question(*old(req), *final(req)),
    {
        if req.Value.is_none() {
            return STATUS_INVALID_PARAMETER;
        }
        if req.Verb & ks::KSPROPERTY_TYPE_GET != 0 {
            if req.ValueSize < STATS_SIZE {
                req.ValueSize = STATS_SIZE;
                return STATUS_BUFFER_TOO_SMALL;
            }
            let b: Vec<u8> = self.snapshot();
            topology::answer_with(req, b.as_slice());
            return STATUS_SUCCESS;
        }
        STATUS_INVALID_PARAMETER
    }
}

/// The counters after one more of `i`, so many times.
pub open spec fn counted_times(s: Seq<u32>, i: int, times: nat) -> Seq<u32>
    decreases times,
{
    if times == 0 {
        s
    } else {
        counted(counted_times(s, i, (times - 1) as nat), i)
    }
}

/// A counter counts every call: after so many it has grown by that number, modulo 2 to the 32nd,
/// and no other has changed.
pub proof fn law_every_call_counts(s: Seq<u32>, i: int, times: nat)
    requires
        0 <= i < s.len(),
    ensures
        ({
            let t = counted_times(s, i, times);
            &&& t.len() == s.len()
            &&& t[i] == (s[i] + times) % 0x1_0000_0000
            &&& forall|k: int| 0 <= k < s.len() && k != i ==> #[trigger] t[k] == s[k]
        }),
    decreases times,
{
    if times > 0 {
        law_every_call_counts(s, i, (times - 1) as nat);
    }
}

/// Of a call of an engine method, the counter of that method grows by one, and a failure, and only
/// one, is remembered with the method and its status; nothing else changes.
pub proof fn law_engine_call_is_noted(s: Seq<u32>, method: int, status: NTSTATUS, k: int)
    requires
        s.len() == STATS_COUNT,
        0 <= method < 16,
        0 <= k < STATS_COUNT,
    ensures
        ({
            let t = ticked(s, method, status);
            &&& t.len() == s.len()
            &&& t[AE_CALLS + method] == (s[AE_CALLS + method] + 1) % 0x1_0000_0000
            &&& status < 0 ==> t[AE_LAST_FAIL_IDX as int] == method && bytes::signed32(
                t[AE_LAST_FAIL_STATUS as int],
            ) == status
            &&& k != AE_CALLS + method && (status >= 0 || (k != AE_LAST_FAIL_IDX && k
                != AE_LAST_FAIL_STATUS)) ==> t[k] == s[k]
        }),
{
    bytes::lemma_signed32_of_bits32(status);
}

/// The counters after interfaces were asked for.
pub open spec fn asked_row(s: Seq<u32>, ids: Seq<u32>) -> Seq<u32>
    decreases ids.len(),
{
    if ids.len() == 0 {
        s
    } else {
        asked(asked_row(s, ids.drop_last()), ids.last())
    }
}

/// The last eight interfaces that were asked for are remembered, and how many were asked for.
pub proof fn law_last_eight_interfaces_are_remembered(s: Seq<u32>, ids: Seq<u32>, back: int)
    requires
        s.len() == STATS_COUNT,
        s[QI_COUNT as int] == 0,
        ids.len() <= u32::MAX,
        0 <= back < 8,
        back < ids.len(),
    ensures
        ({
            let t = asked_row(s, ids);
            let n = ids.len() - 1 - back;
            &&& t.len() == s.len()
            &&& t[QI_COUNT as int] == ids.len()
            &&& t[QI_RECENT + n % 8] == ids[n]
        }),
    decreases ids.len(),
{
    lemma_asked_count(s, ids);
    let before = asked_row(s, ids.drop_last());
    lemma_asked_count(s, ids.drop_last());
    let n = ids.len() - 1 - back;
    if back > 0 {
        law_last_eight_interfaces_are_remembered(s, ids.drop_last(), back - 1);
        assert(ids.drop_last()[n] == ids[n]);
        assert((ids.len() - 1) % 8 != n % 8);
    }
}

/// How many interfaces were asked for.
proof fn lemma_asked_count(s: Seq<u32>, ids: Seq<u32>)
    requires
        s.len() == STATS_COUNT,
        s[QI_COUNT as int] == 0,
        ids.len() <= u32::MAX,
    ensures
        asked_row(s, ids).len() == s.len(),
        asked_row(s, ids)[QI_COUNT as int] == ids.len(),
    decreases ids.len(),
{
    if ids.len() > 0 {
        lemma_asked_count(s, ids.drop_last());
    }
}

/// A reader with room for all the counters gets each of them, at four bytes for one; a reader with
/// less is told how much room they take, and, asking again with that, gets them. Only a request to
/// read, with a buffer, is answered at all.
pub proof fn law_counters_can_be_read(s: Seq<u32>, req: PCPROPERTY_REQUEST, i: int)
    requires
        s.len() == STATS_COUNT,
        0 <= i < STATS_COUNT,
        topology::is_request(req),
    ensures
        ({
            let a = stats_answer(s, req);
            let reads = req.Value is Some && req.Verb as int % 2 == 1;
            &&& a.status == STATUS_SUCCESS <==> reads && req.ValueSize >= 4 * STATS_COUNT
            &&& a.status == STATUS_BUFFER_TOO_SMALL <==> reads && req.ValueSize < 4 * STATS_COUNT
            &&& a.status == STATUS_INVALID_PARAMETER <==> !reads
            &&& reads ==> a.size == 4 * STATS_COUNT
            &&& a.status == STATUS_SUCCESS ==> bytes::dword_at(a.value, 4 * i) == s[i]
            &&& a.status != STATUS_SUCCESS ==> a.value == topology::value_bytes(req)
        }),
{
    let v = req.Verb;
    assert((v & 0x1 != 0) == (v % 2 == 1)) by (bit_vector);
    lemma_words_len(s);
    law_snapshot_reads_back(s, i);
    let a = stats_answer(s, req);
    if a.status == STATUS_SUCCESS {
        let b = words_bytes(s);
        bytes::lemma_patched(topology::value_bytes(req), 0, b);
        let part = b.subrange(4 * i, 4 * i + 4);
        assert forall|k: int| 0 <= k < b.len() implies a.value[k] == b[k] by {
            assert(a.value.subrange(0, b.len() as int)[k] == a.value[k]);
        }
        assert(a.value.subrange(4 * i, 4 * i + 4) =~= part);
        bytes::lemma_dword_of_part(a.value, 4 * i, part);
        bytes::lemma_dword_of_part(b, 4 * i, part);
    }
}

} // verus!
