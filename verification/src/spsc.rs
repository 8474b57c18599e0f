//! The queue of samples between the thread that decodes and the callback that plays: a ring of
//! fixed length that keeps the order and loses nothing that it took.
use vstd::prelude::*;

verus! {

/// The places of the ring. One stays free, so the queue holds one less.
pub const RING_LEN: usize = 65536;

/// The queue. The samples are 32-bit floating-point numbers, given by their bits.
pub struct SpscRing {
    buf: Vec<u32>,
    head: usize,
    tail: usize,
}

/// How many samples stand between `tail` and `head`.
pub open spec fn between(tail: int, head: int) -> int {
    (head - tail) % (RING_LEN as int)
}

/// The place of the sample number `i` behind `tail`.
pub open spec fn place(tail: int, i: int) -> int {
    (tail + i) % (RING_LEN as int)
}

impl View for SpscRing {
    type V = Seq<u32>;

    closed spec fn view(&self) -> Seq<u32> {
        Seq::new(
            between(self.tail as int, self.head as int) as nat,
            |i: int| self.buf@[place(self.tail as int, i)],
        )
    }
}

/// The smaller of two.
pub open spec fn least(a: int, b: int) -> int {
    if a < b {
        a
    } else {
        b
    }
}

impl SpscRing {
    /// The ring has its places and both ends stand in it.
    pub closed spec fn wf(self) -> bool {
        &&& self.buf@.len() == RING_LEN
        &&& self.head < RING_LEN
        &&& self.tail < RING_LEN
    }

    /// An empty queue.
    pub fn new() -> (r: SpscRing)
        ensures
            r.wf(),
            r@ == Seq::<u32>::empty(),
    {
        let mut buf: Vec<u32> = Vec::new();
        while buf.len() < RING_LEN
            invariant
                buf@.len() <= RING_LEN,
            decreases RING_LEN - buf@.len(),
        {
            buf.push(0);
        }
        let r: SpscRing = SpscRing { buf, head: 0, tail: 0 };
        assert(r@ =~= Seq::<u32>::empty());
        r
    }

    /// How many samples the queue holds.
    pub fn ring_used(&self) -> (n: usize)
        requires
            self.wf(),
        ensures
            n == self@.len(),
            n < RING_LEN,
    {
        if self.head >= self.tail {
            self.head - self.tail
        } else {
            RING_LEN - (self.tail - self.head)
        }
    }

    /// How many samples it still takes.
    pub fn ring_free(&self) -> (n: usize)
        requires
            self.wf(),
        ensures
            n == RING_LEN - 1 - self@.len(),
    {
        RING_LEN - 1 - self.ring_used()
    }

    /// Adds samples at the end, as many as there is room for, and says how many these are.
    pub fn ring_push(&mut self, data: &[u32]) -> (n: usize)
        requires
            old(self).wf(),
        ensures
            final(self).wf(),
            n == least(data@.len() as int, RING_LEN - 1 - old(self)@.len()),
            final(self)@ == old(self)@ + data@.take(n as int),
    {
        let free: usize = self.ring_free();
        let n: usize = if data.len() < free {
            data.len()
        } else {
            free
        };
        let ghost used = self@.len() as int;
        let ghost tail = self.tail as int;
        let mut i: usize = 0;
        assert(self@ =~= old(self)@ + data@.take(0));
        while i < n
            invariant
                i <= n,
                n <= data@.len(),
                self.wf(),
                self.tail == tail,
                used + n < RING_LEN,
                old(self)@.len() == used,
                self@ == old(self)@ + data@.take(i as int),
            decreases n - i,
        {
            let ghost before = *self;
            proof {
                assert(before@.len() == used + i);
                lemma_end(tail, before.head as int);
            }
            let at: usize = self.head;
            self.buf.set(at, data[i]);
            self.head = if at + 1 < RING_LEN {
                at + 1
            } else {
                0
            };
            proof {
                lemma_one_more(tail, at as int);
                assert forall|k: int| 0 <= k < used + i implies self@[k] == before@[k] by {
                    lemma_places_differ(tail, k, used + i);
                }
                assert(self@ =~= before@.push(data@[i as int]));
                assert(data@.take(i + 1) =~= data@.take(i as int).push(data@[i as int]));
            }
            i = i + 1;
            assert(self@ =~= old(self)@ + data@.take(i as int));
        }
        n
    }

    /// Takes the oldest samples, at most `want`.
    pub fn ring_pop(&mut self, want: usize) -> (out: Vec<u32>)
        requires
            old(self).wf(),
        ensures
            final(self).wf(),
            out@.len() == least(want as int, old(self)@.len() as int),
            out@ == old(self)@.take(out@.len() as int),
            final(self)@ == old(self)@.skip(out@.len() as int),
    {
        let used: usize = self.ring_used();
        let n: usize = if want < used {
            want
        } else {
            used
        };
        let mut out: Vec<u32> = Vec::new();
        let ghost all = self@;
        assert(self@ =~= all.skip(0));
        assert(out@ =~= all.take(0));
        let mut i: usize = 0;
        while i < n
            invariant
                i <= n,
                n <= all.len(),
                self.wf(),
                out@ == all.take(i as int),
                self@ == all.skip(i as int),
            decreases n - i,
        {
            let ghost before = *self;
            assert(before@.len() == all.len() - i);
            assert(before@[0] == all[i as int]);
            let at: usize = self.tail;
            assert(before@[0] == before.buf@[at as int]);
            out.push(self.buf[at]);
            self.tail = if at + 1 < RING_LEN {
                at + 1
            } else {
                0
            };
            proof {
                lemma_one_less(at as int, before.head as int);
                assert forall|k: int| 0 <= k < before@.len() - 1 implies self@[k] == before@[k
                    + 1] by {
                    lemma_next_place(at as int, k);
                }
                assert(self@ =~= before@.skip(1));
            }
            i = i + 1;
            assert(out@ =~= all.take(i as int));
            assert(self@ =~= all.skip(i as int));
        }
        out
    }
}

/// The place behind the last sample is where the head stands.
proof fn lemma_end(tail: int, head: int)
    requires
        0 <= tail < RING_LEN,
        0 <= head < RING_LEN,
    ensures
        place(tail, between(tail, head)) == head,
{
}

/// Moving the head on makes the queue one longer, if it was not full.
proof fn lemma_one_more(tail: int, head: int)
    requires
        0 <= tail < RING_LEN,
        0 <= head < RING_LEN,
        between(tail, head) + 1 < RING_LEN,
    ensures
        between(
            tail,
            if head + 1 < RING_LEN {
                head + 1
            } else {
                0
            },
        ) == between(tail, head) + 1,
{
}

/// Moving the tail on makes the queue one shorter, if it was not empty.
proof fn lemma_one_less(tail: int, head: int)
    requires
        0 <= tail < RING_LEN,
        0 <= head < RING_LEN,
        between(tail, head) > 0,
    ensures
        between(
            if tail + 1 < RING_LEN {
                tail + 1
            } else {
                0
            },
            head,
        ) == between(tail, head) - 1,
{
}

/// Counting from the next place is counting one further.
proof fn lemma_next_place(tail: int, k: int)
    requires
        0 <= tail < RING_LEN,
        0 <= k < RING_LEN - 1,
    ensures
        place(
            if tail + 1 < RING_LEN {
                tail + 1
            } else {
                0
            },
            k,
        ) == place(tail, k + 1),
{
}

/// Different samples stand in different places.
proof fn lemma_places_differ(tail: int, a: int, b: int)
    requires
        0 <= tail < RING_LEN,
        0 <= a < b < RING_LEN,
    ensures
        place(tail, a) != place(tail, b),
        0 <= place(tail, a) < RING_LEN,
        0 <= place(tail, b) < RING_LEN,
{
}

/// The queue after samples were pushed, by what the pushing promises.
pub open spec fn pushed(queue: Seq<u32>, data: Seq<u32>) -> Seq<u32> {
    queue + data.take(least(data.len() as int, RING_LEN - 1 - queue.len()))
}

/// What comes out when at most `want` samples are taken, by what the taking promises.
pub open spec fn popped(queue: Seq<u32>, want: int) -> Seq<u32> {
    queue.take(least(want, queue.len() as int))
}

/// Samples that there was room for come out as they went in: first what was there before, then
/// they, all of them and in order.
pub proof fn law_samples_come_out_in_order(queue: Seq<u32>, data: Seq<u32>)
    requires
        queue.len() + data.len() <= RING_LEN - 1,
    ensures
        pushed(queue, data) == queue + data,
        popped(pushed(queue, data), (queue.len() + data.len()) as int) == queue + data,
        popped(pushed(queue, data), queue.len() as int) == queue,
        pushed(queue, data).skip(queue.len() as int) == data,
{
    assert(data.take(data.len() as int) =~= data);
    assert((queue + data).take((queue.len() + data.len()) as int) =~= queue + data);
    assert((queue + data).take(queue.len() as int) =~= queue);
    assert((queue + data).skip(queue.len() as int) =~= data);
}

} // verus!
