//! The byte ring between the virtual speaker and the virtual microphone.
use vstd::prelude::*;

verus! {

/// A bounded byte queue on a circular store. `read` and `write` are running positions whose
/// remainder modulo the capacity is an offset in the store; both are kept below twice the
/// capacity, and the number of queued bytes is always their difference.
pub struct RingBuffer {
    data: Vec<u8>,
    capacity: usize,
    read: usize,
    write: usize,
}

/// The offset in the store of a running position.
spec fn slot(pos: int, capacity: int) -> int {
    pos % capacity
}

/// The smaller of two numbers.
pub open spec fn least(a: int, b: int) -> int {
    if a <= b {
        a
    } else {
        b
    }
}

/// What a full ring holds after `src` was written by dropping the oldest bytes: the newest
/// `capacity` bytes of everything queued, as long as one pass over the ring is enough; beyond
/// that, the first `capacity` bytes of `src` that had not fitted at first.
pub open spec fn dropped_oldest(queue: Seq<u8>, src: Seq<u8>, capacity: int) -> Seq<u8> {
    let total = queue + src;
    let free = capacity - queue.len();
    if total.len() <= capacity {
        total
    } else if src.len() - free <= capacity {
        total.subrange(total.len() - capacity, total.len() as int)
    } else {
        src.subrange(free, free + capacity)
    }
}

/// How many bytes of `src` such a write stores.
pub open spec fn dropped_oldest_count(queue: Seq<u8>, src: Seq<u8>, capacity: int) -> int {
    least(src.len() as int, capacity - queue.len() + capacity)
}

impl View for RingBuffer {
    type V = Seq<u8>;

    /// The queued bytes, oldest first.
    closed spec fn view(&self) -> Seq<u8> {
        Seq::new(
            (self.write - self.read) as nat,
            |i: int| self.data@[slot(self.read + i, self.capacity as int)],
        )
    }
}

impl RingBuffer {
    /// The store has `capacity` bytes, and no more than that are queued.
    pub closed spec fn wf(&self) -> bool {
        &&& 0 < self.capacity <= isize::MAX
        &&& self.data@.len() == self.capacity
        &&& self.read < self.capacity
        &&& self.read <= self.write <= self.read + self.capacity
    }

    /// The number of bytes the store can queue.
    pub closed spec fn cap(&self) -> nat {
        self.capacity as nat
    }

    /// Every ring has room for a byte, and never queues more than its capacity.
    pub proof fn law_queue_fits_the_store(&self)
        requires
            self.wf(),
        ensures
            0 < self.cap() <= isize::MAX,
            self@.len() <= self.cap(),
    {
    }

    /// An empty ring on `capacity` bytes of storage.
    pub fn new(storage: Vec<u8>, capacity: usize) -> (ring: Self)
        requires
            0 < capacity <= isize::MAX,
            storage@.len() == capacity,
        ensures
            ring.wf(),
            ring.cap() == capacity,
            ring@ == Seq::<u8>::empty(),
    {
        let ring = RingBuffer { data: storage, capacity, read: 0, write: 0 };
        assert(ring@ =~= Seq::<u8>::empty());
        ring
    }

    /// The number of bytes the ring can queue.
    pub fn capacity(&self) -> (capacity: usize)
        requires
            self.wf(),
        ensures
            capacity == self.cap(),
    {
        self.capacity
    }

    fn count(&self) -> (count: usize)
        requires
            self.wf(),
        ensures
            count == self@.len(),
            count == self.write - self.read,
    {
        self.write - self.read
    }

    /// How many more bytes fit.
    pub fn writable(&self) -> (n: usize)
        requires
            self.wf(),
        ensures
            n == self.cap() - self@.len(),
    {
        self.capacity - self.count()
    }

    /// How many bytes are queued.
    pub fn readable(&self) -> (n: usize)
        requires
            self.wf(),
        ensures
            n == self@.len(),
    {
        self.count()
    }

    /// Moves both positions back by one lap once the read position has finished it.
    fn rebase(&mut self)
        requires
            0 < old(self).capacity <= isize::MAX,
            old(self).data@.len() == old(self).capacity,
            old(self).read < 2 * old(self).capacity,
            old(self).read <= old(self).write <= old(self).read + old(self).capacity,
        ensures
            final(self).wf(),
            final(self).capacity == old(self).capacity,
            final(self)@ == old(self)@,
    {
        if self.read >= self.capacity {
            let ghost before = *self;
            self.read = self.read - self.capacity;
            self.write = self.write - self.capacity;
            assert(self@ =~= before@) by {
                assert forall|i: int| 0 <= i < before@.len() implies self@[i] == before@[i] by {
                    let c = before.capacity as int;
                    let p = before.read + i;
                    vstd::arithmetic::div_mod::lemma_mod_sub_multiples_vanish(p, c);
                    assert(slot(p - c, c) == slot(p, c));
                }
            }
        }
    }

    /// Queues as much of `src` as fits, and says how much that was.
    pub fn write(&mut self, src: &[u8]) -> (n: usize)
        requires
            old(self).wf(),
        ensures
            final(self).wf(),
            final(self).cap() == old(self).cap(),
            n == least(old(self).cap() - old(self)@.len(), src@.len() as int),
            final(self)@ == old(self)@ + src@.subrange(0, n as int),
    {
        let room: usize = self.writable();
        let n: usize = if room <= src.len() {
            room
        } else {
            src.len()
        };
        let c: usize = self.capacity;
        let w: usize = self.write;
        let mut i: usize = 0;
        while i < n
            invariant
                i <= n,
                n <= src@.len(),
                c == self.capacity,
                self.wf(),
                w + n <= self.read + c,
                c == old(self).capacity,
                self.read == old(self).read,
                self.write == w,
                w == old(self).write,
                old(self).wf(),
                self.data@.len() == c,
                forall|k: int|
                    old(self).read <= k < w ==> self.data@[#[trigger] slot(k, c as int)]
                        == old(self).data@[slot(k, c as int)],
                forall|k: int|
                    w <= k < w + i ==> self.data@[#[trigger] slot(k, c as int)] == src@[k - w],
            decreases n - i,
        {
            let off: usize = (w + i) % c;
            let byte: u8 = src[i];
            self.data.set(off, byte);
            proof {
                assert forall|k: int| old(self).read <= k < w + i implies #[trigger] slot(
                    k,
                    c as int,
                ) != off by {
                    lemma_distinct_offsets(k, w + i, c as int);
                }
                assert(slot(w + i, c as int) == off);
            }
            i = i + 1;
        }
        self.write = w + n;
        proof {
            assert(self@ =~= old(self)@ + src@.subrange(0, n as int)) by {
                assert forall|j: int| 0 <= j < self@.len() implies self@[j] == (old(self)@
                    + src@.subrange(0, n as int))[j] by {
                    let k = self.read + j;
                    if k < w {
                        assert(self.data@[slot(k, c as int)] == old(self).data@[slot(k, c as int)]);
                    } else {
                        assert(self.data@[slot(k, c as int)] == src@[k - w]);
                    }
                }
            }
        }
        n
    }

    /// Takes the oldest queued bytes into the front of `dst`, as many as there are and fit.
    pub fn read(&mut self, dst: &mut [u8]) -> (n: usize)
        requires
            old(self).wf(),
        ensures
            final(self).wf(),
            final(self).cap() == old(self).cap(),
            n == least(old(self)@.len() as int, old(dst)@.len() as int),
            final(dst)@ == old(self)@.subrange(0, n as int) + old(dst)@.subrange(
                n as int,
                old(dst)@.len() as int,
            ),
            final(self)@ == old(self)@.subrange(n as int, old(self)@.len() as int),
    {
        let have: usize = self.readable();
        let room: usize = dst.len();
        let n: usize = if have <= room {
            have
        } else {
            room
        };
        let mut i: usize = 0;
        while i < n
            invariant
                i <= n,
                n <= self@.len(),
                n <= dst@.len(),
                dst@.len() == old(dst)@.len(),
                *self == *old(self),
                self.wf(),
                forall|k: int| 0 <= k < i ==> dst@[k] == self@[k],
                forall|k: int| i <= k < dst@.len() ==> dst@[k] == old(dst)@[k],
            decreases n - i,
        {
            let off: usize = (self.read + i) % self.capacity;
            let byte: u8 = self.data[off];
            dst[i] = byte;
            i = i + 1;
        }
        assert(dst@ =~= old(self)@.subrange(0, n as int) + old(dst)@.subrange(
            n as int,
            old(dst)@.len() as int,
        ));
        self.drop_front(n);
        n
    }

    /// Forgets the `n` oldest bytes.
    fn drop_front(&mut self, n: usize)
        requires
            old(self).wf(),
            n <= old(self)@.len(),
        ensures
            final(self).wf(),
            final(self).capacity == old(self).capacity,
            final(self)@ == old(self)@.subrange(n as int, old(self)@.len() as int),
    {
        let ghost before = *self;
        self.read = self.read + n;
        assert(self@ =~= before@.subrange(n as int, before@.len() as int));
        self.rebase();
    }

    /// Forgets the `n` oldest bytes, or all of them if there are fewer.
    pub fn drop_oldest(&mut self, n: usize)
        requires
            old(self).wf(),
        ensures
            final(self).wf(),
            final(self).cap() == old(self).cap(),
            final(self)@ == old(self)@.subrange(
                least(n as int, old(self)@.len() as int),
                old(self)@.len() as int,
            ),
    {
        let have: usize = self.readable();
        let m: usize = if n <= have {
            n
        } else {
            have
        };
        self.drop_front(m);
    }

    /// Queues `src`, dropping the oldest bytes to make room for what does not fit at first.
    pub fn write_drop_oldest(&mut self, src: &[u8]) -> (n: usize)
        requires
            old(self).wf(),
        ensures
            final(self).wf(),
            final(self).cap() == old(self).cap(),
            n == dropped_oldest_count(old(self)@, src@, old(self).cap() as int),
            final(self)@ == dropped_oldest(old(self)@, src@, old(self).cap() as int),
    {
        let ghost queue = self@;
        let ghost c = self.cap() as int;
        let written: usize = self.write(src);
        if written < src.len() {
            let shortfall: usize = src.len() - written;
            let ghost full = self@;
            self.drop_oldest(shortfall);
            let ghost kept = self@;
            let rest: &[u8] = vstd::slice::slice_subrange(src, written, src.len());
            let more: usize = self.write(rest);
            proof {
                let total = queue + src@;
                let free = c - queue.len();
                assert(full =~= queue + src@.subrange(0, free));
                if src@.len() - free <= c {
                    assert(self@ =~= total.subrange(total.len() - c, total.len() as int));
                } else {
                    assert(kept.len() == 0);
                    assert(self@ =~= src@.subrange(free, free + c));
                }
            }
            return written + more;
        }
        assert(src@.subrange(0, written as int) =~= src@);
        written
    }

    /// Fills `dst` with the oldest queued bytes and pads with zeros; says how many were queued.
    pub fn read_zero_fill(&mut self, dst: &mut [u8]) -> (got: usize)
        requires
            old(self).wf(),
        ensures
            final(self).wf(),
            final(self).cap() == old(self).cap(),
            got == least(old(self)@.len() as int, old(dst)@.len() as int),
            final(dst)@ == old(self)@.subrange(0, got as int) + Seq::new(
                (old(dst)@.len() - got) as nat,
                |i: int| 0u8,
            ),
            final(self)@ == old(self)@.subrange(got as int, old(self)@.len() as int),
    {
        let got: usize = self.read(dst);
        let len: usize = dst.len();
        let mut i: usize = got;
        while i < len
            invariant
                got <= i <= len,
                len == dst@.len(),
                len == old(dst)@.len(),
                got == least(old(self)@.len() as int, old(dst)@.len() as int),
                forall|k: int| 0 <= k < got ==> dst@[k] == old(self)@[k],
                forall|k: int| got <= k < i ==> dst@[k] == 0,
            decreases len - i,
        {
            dst[i] = 0;
            i = i + 1;
        }
        assert(dst@ =~= old(self)@.subrange(0, got as int) + Seq::new(
            (old(dst)@.len() - got) as nat,
            |i: int| 0u8,
        ));
        got
    }
}

/// Two positions less than one lap apart have different offsets.
proof fn lemma_distinct_offsets(a: int, b: int, c: int)
    requires
        0 < c,
        0 <= a < b < a + c,
    ensures
        slot(a, c) != slot(b, c),
{
    vstd::arithmetic::div_mod::lemma_fundamental_div_mod(a, c);
    vstd::arithmetic::div_mod::lemma_fundamental_div_mod(b, c);
    if a % c == b % c {
        let d = b / c - a / c;
        assert(b - a == c * d) by (nonlinear_arith)
            requires
                a == c * (a / c) + a % c,
                b == c * (b / c) + b % c,
                a % c == b % c,
                d == b / c - a / c,
        ;
        assert(d <= 0 || d >= 1);
        assert(d <= 0 ==> c * d <= 0) by (nonlinear_arith)
            requires
                0 < c,
        ;
        assert(d >= 1 ==> c * d >= c) by (nonlinear_arith)
            requires
                0 < c,
        ;
    }
}

/// Bytes come out in the order they went in: what was written to a ring with room for it is read
/// back after everything queued before it.
pub proof fn law_written_bytes_are_read_back(queue: Seq<u8>, src: Seq<u8>, capacity: int)
    requires
        queue.len() + src.len() <= capacity,
    ensures
        ({
            let n = least(capacity - queue.len(), src.len() as int);
            let after = queue + src.subrange(0, n);
            &&& n == src.len()
            &&& after.subrange(0, queue.len() as int) == queue
            &&& after.subrange(queue.len() as int, after.len() as int) == src
        }),
{
    let n = least(capacity - queue.len(), src.len() as int);
    let after = queue + src.subrange(0, n);
    assert(after.subrange(0, queue.len() as int) =~= queue);
    assert(after.subrange(queue.len() as int, after.len() as int) =~= src);
}

/// A write that drops the oldest bytes never overfills the ring, and when the bytes that did not
/// fit at first are no more than the capacity it stores all of `src`: the ring then ends with
/// the newest bytes of everything queued.
pub proof fn law_drop_oldest_keeps_newest(queue: Seq<u8>, src: Seq<u8>, capacity: int)
    requires
        0 < capacity,
        queue.len() <= capacity,
    ensures
        dropped_oldest(queue, src, capacity).len() <= capacity,
        src.len() <= capacity - queue.len() + capacity ==> dropped_oldest_count(
            queue,
            src,
            capacity,
        ) == src.len(),
        src.len() <= capacity ==> dropped_oldest(queue, src, capacity).subrange(
            dropped_oldest(queue, src, capacity).len() - src.len(),
            dropped_oldest(queue, src, capacity).len() as int,
        ) == src,
{
    if src.len() <= capacity {
        let after = dropped_oldest(queue, src, capacity);
        assert(after.subrange(after.len() - src.len(), after.len() as int) =~= src);
    }
}

/// A write that drops the oldest bytes keeps the newest bytes of everything: as long as what did
/// not fit at first is no more than the capacity, the ring afterwards holds the last bytes of the
/// queue with `src` behind it, as many as it can, so that no queued byte is dropped for which there
/// is room, and none of `src`.
pub proof fn law_only_the_oldest_bytes_are_dropped(queue: Seq<u8>, src: Seq<u8>, capacity: int)
    requires
        0 < capacity,
        queue.len() <= capacity,
        src.len() <= capacity - queue.len() + capacity,
    ensures
        ({
            let all = queue + src;
            let after = dropped_oldest(queue, src, capacity);
            &&& after.len() == if all.len() <= capacity {
                all.len() as int
            } else {
                capacity
            }
            &&& after == all.skip(all.len() - after.len())
        }),
{
    let all = queue + src;
    let after = dropped_oldest(queue, src, capacity);
    assert(after =~= all.skip(all.len() - after.len()));
}

// ---- rows of calls ----

/// A call on the ring.
pub enum RingOp {
    /// Writing bytes.
    Write(Seq<u8>),
    /// Reading into room for so many bytes.
    Read(nat),
    /// Writing bytes, and dropping the oldest for them.
    WriteDropOldest(Seq<u8>),
    /// Reading into room for so many bytes, and padding with zeros.
    ReadZeroFill(nat),
    /// Dropping so many of the oldest bytes.
    DropOldest(nat),
}

/// What a row of calls has come to.
pub struct RingHistory {
    /// The queued bytes.
    pub queue: Seq<u8>,
    /// The bytes that the writes took, one write after the other.
    pub taken: Seq<u8>,
    /// The queued bytes that the reads gave, one read after the other.
    pub given: Seq<u8>,
}

/// What a row of calls has come to after one more.
pub open spec fn after_call(h: RingHistory, op: RingOp, capacity: int) -> RingHistory {
    let len = h.queue.len() as int;
    match op {
        RingOp::Write(src) => {
            let n = least(capacity - len, src.len() as int);
            RingHistory {
                queue: h.queue + src.subrange(0, n),
                taken: h.taken + src.subrange(0, n),
                given: h.given,
            }
        },
        RingOp::Read(room) | RingOp::ReadZeroFill(room) => {
            let n = least(len, room as int);
            RingHistory {
                queue: h.queue.subrange(n, len),
                taken: h.taken,
                given: h.given + h.queue.subrange(0, n),
            }
        },
        RingOp::WriteDropOldest(src) => RingHistory {
            queue: dropped_oldest(h.queue, src, capacity),
            taken: h.taken + src.subrange(0, dropped_oldest_count(h.queue, src, capacity)),
            given: h.given,
        },
        RingOp::DropOldest(n) => RingHistory {
            queue: h.queue.subrange(least(n as int, len), len),
            ..h
        },
    }
}

/// What a row of calls on a new ring has come to.
pub open spec fn history(ops: Seq<RingOp>, capacity: int) -> RingHistory
    decreases ops.len(),
{
    if ops.len() == 0 {
        RingHistory { queue: Seq::empty(), taken: Seq::empty(), given: Seq::empty() }
    } else {
        after_call(history(ops.drop_last(), capacity), ops.last(), capacity)
    }
}

/// A call that drops nothing.
pub open spec fn drops_nothing(op: RingOp) -> bool {
    op is Write || op is Read || op is ReadZeroFill
}

/// Over any row of writes and reads, nothing is lost, reordered or repeated: the bytes that were
/// read are the first of those that were written, the queued ones are the rest, and once all are
/// read, what was read is what was written.
pub proof fn law_bytes_read_are_a_prefix_of_bytes_written(ops: Seq<RingOp>, capacity: int)
    requires
        0 < capacity,
        forall|i: int| 0 <= i < ops.len() ==> drops_nothing(#[trigger] ops[i]),
    ensures
        ({
            let h = history(ops, capacity);
            &&& h.given.len() <= h.taken.len()
            &&& h.given == h.taken.take(h.given.len() as int)
            &&& h.queue == h.taken.skip(h.given.len() as int)
            &&& h.queue.len() == 0 ==> h.given == h.taken
        }),
    decreases ops.len(),
{
    law_queue_never_outgrows_the_ring(ops, capacity);
    if ops.len() > 0 {
        let rest = ops.drop_last();
        assert forall|i: int| 0 <= i < rest.len() implies drops_nothing(#[trigger] rest[i]) by {
            assert(rest[i] == ops[i]);
        }
        law_bytes_read_are_a_prefix_of_bytes_written(rest, capacity);
        law_queue_never_outgrows_the_ring(rest, capacity);
        let before = history(rest, capacity);
        assert(drops_nothing(ops[ops.len() - 1]));
        assert(before.taken =~= before.given + before.queue);
        let h = history(ops, capacity);
        assert(h.taken =~= h.given + h.queue);
    }
    let h = history(ops, capacity);
    assert(h.given =~= h.taken.take(h.given.len() as int));
    assert(h.queue =~= h.taken.skip(h.given.len() as int));
    assert(h.queue.len() == 0 ==> h.given =~= h.taken);
}

/// Over any row of calls, the queue never outgrows the ring, so what is queued and what still fits
/// always add up to the capacity.
pub proof fn law_queue_never_outgrows_the_ring(ops: Seq<RingOp>, capacity: int)
    requires
        0 < capacity,
    ensures
        history(ops, capacity).queue.len() <= capacity,
    decreases ops.len(),
{
    if ops.len() > 0 {
        law_queue_never_outgrows_the_ring(ops.drop_last(), capacity);
    }
}

/// The read position may be advanced from both ends, each from its own older snapshot, as long as
/// it only ever moves to the larger value: it then never passes the write position.
pub proof fn law_read_never_passes_write(
    read_seen: nat,
    write_seen: nat,
    read_now: nat,
    write_now: nat,
    n: nat,
)
    requires
        read_seen <= write_seen <= write_now,
        read_now <= write_now,
        n <= write_seen - read_seen,
    ensures
        read_now <= vstd::math::max(read_now as int, (read_seen + n) as int) <= write_now,
{
}

} // verus!
