//! Arithmetic of the stream position: performance-counter time to bytes, frame alignment, and the
//! way a span of bytes folds onto a circular DMA buffer.
use vstd::arithmetic::div_mod::*;
use vstd::arithmetic::mul::*;
use vstd::prelude::*;

verus! {

/// Bytes due after `delta_ticks` of a counter running at `freq` ticks per second, for a stream of
/// `bytes_per_sec`. A product that does not fit 64 bits counts as the largest one that does.
pub open spec fn interval_bytes(delta_ticks: nat, freq: nat, bytes_per_sec: nat) -> nat {
    if freq == 0 || bytes_per_sec == 0 {
        0
    } else if delta_ticks * bytes_per_sec > u64::MAX {
        u64::MAX as nat / freq
    } else {
        (delta_ticks * bytes_per_sec) / freq
    }
}

/// The largest whole number of frames in `bytes`, in bytes; without a frame size, `bytes` itself.
pub open spec fn aligned_down(bytes: nat, block_align: nat) -> nat {
    if block_align == 0 {
        bytes
    } else {
        (bytes - bytes % block_align) as nat
    }
}

/// `pos` lies on the grid of `block_align`-byte frames.
pub open spec fn on_grid(pos: nat, block_align: nat) -> bool {
    block_align > 0 && pos % block_align == 0
}

/// Converts a performance-counter interval to the bytes the stream should have advanced.
pub fn bytes_for_interval(delta_ticks: u64, freq: u64, bytes_per_sec: u64) -> (bytes: u64)
    ensures
        bytes == interval_bytes(delta_ticks as nat, freq as nat, bytes_per_sec as nat),
{
    if freq == 0 || bytes_per_sec == 0 {
        return 0;
    }
    match delta_ticks.checked_mul(bytes_per_sec) {
        Some(product) => product / freq,
        None => u64::MAX / freq,
    }
}

/// Rounds an advance down to whole frames. An unset frame size (0) leaves it as it is.
pub fn frame_aligned_advance(bytes: u64, block_align: u32) -> (aligned: u64)
    ensures
        aligned == aligned_down(bytes as nat, block_align as nat),
        aligned <= bytes,
        block_align > 0 ==> on_grid(aligned as nat, block_align as nat) && bytes - aligned
            < block_align,
{
    if block_align == 0 {
        return bytes;
    }
    proof {
        lemma_aligned_down_on_grid(bytes as nat, block_align as nat);
        lemma_mod_decreases(bytes as nat, block_align as nat);
    }
    let rest: u64 = bytes % (block_align as u64);
    bytes - rest
}

/// Splits a span of `n` bytes that starts at `start` on a ring of `size` bytes: the offset of its
/// first byte, and how many of its bytes lie before the end of the ring.
pub fn split_ring_span(start: usize, n: usize, size: usize) -> (split: (usize, usize))
    ensures
        size == 0 ==> split == (0usize, 0usize),
        size > 0 ==> split.0 == start as nat % size as nat,
        size > 0 ==> split.0 < size,
        size > 0 ==> split.1 == if size - split.0 < n {
            size - split.0
        } else {
            n as int
        },
{
    if size == 0 {
        return (0, 0);
    }
    let off: usize = start % size;
    let first: usize = if size - off < n {
        size - off
    } else {
        n
    };
    (off, first)
}

/// Folds a running byte position onto the ring; 0 while no ring is allocated.
pub fn mod_position(position: u64, dma_size: u32) -> (offset: u64)
    ensures
        offset == if dma_size == 0 {
            0
        } else {
            position as nat % dma_size as nat
        },
        dma_size > 0 ==> offset < dma_size,
{
    if dma_size == 0 {
        return 0;
    }
    position % (dma_size as u64)
}

/// Rounding down lands on the grid, and less than one frame is held back.
pub proof fn lemma_aligned_down_on_grid(bytes: nat, block_align: nat)
    requires
        block_align > 0,
    ensures
        on_grid(aligned_down(bytes, block_align), block_align),
        aligned_down(bytes, block_align) <= bytes < aligned_down(bytes, block_align) + block_align,
{
    lemma_fundamental_div_mod(bytes as int, block_align as int);
    let q: int = bytes as int / block_align as int;
    lemma_mod_multiples_basic(q, block_align as int);
    lemma_mul_is_commutative(q, block_align as int);
    lemma_mod_bound(bytes as int, block_align as int);
}

/// Two positions on the grid sum to a position on the grid.
pub proof fn lemma_grid_sum(a: nat, b: nat, block_align: nat)
    requires
        on_grid(a, block_align),
        on_grid(b, block_align),
    ensures
        on_grid(a + b, block_align),
{
    lemma_add_mod_noop(a as int, b as int, block_align as int);
    lemma_small_mod(0, block_align);
}

/// The difference of two positions on the grid is on the grid.
pub proof fn lemma_grid_difference(a: nat, b: nat, block_align: nat)
    requires
        on_grid(a, block_align),
        on_grid(b, block_align),
        b <= a,
    ensures
        on_grid((a - b) as nat, block_align),
{
    lemma_sub_mod_noop(a as int, b as int, block_align as int);
    lemma_small_mod(0, block_align);
}

/// A position on the grid stays on it when folded onto a ring of whole frames.
pub proof fn lemma_grid_fold(pos: nat, size: nat, block_align: nat)
    requires
        size > 0,
        on_grid(pos, block_align),
        on_grid(size, block_align),
    ensures
        on_grid(pos % size, block_align),
{
    lemma_fundamental_div_mod(pos as int, size as int);
    lemma_fundamental_div_mod(size as int, block_align as int);
    let q: int = pos as int / size as int;
    let k: int = size as int / block_align as int;
    assert(size * q == block_align * (k * q)) by (nonlinear_arith)
        requires
            size == block_align * k,
    ;
    lemma_div_pos_is_pos(pos as int, size as int);
    lemma_div_pos_is_pos(size as int, block_align as int);
    lemma_mul_nonnegative(k, q);
    lemma_mod_multiples_basic(k * q, block_align as int);
    lemma_mul_is_commutative(k * q, block_align as int);
    lemma_mul_nonnegative(size as int, q);
    lemma_grid_difference(pos, (size * q) as nat, block_align);
}

/// A span of whole frames on a ring of whole frames splits into two spans of whole frames.
pub proof fn law_split_keeps_frame_grid(
    start: usize,
    n: usize,
    size: usize,
    block_align: nat,
    off: usize,
    first: usize,
)
    requires
        size > 0,
        on_grid(start as nat, block_align),
        on_grid(n as nat, block_align),
        on_grid(size as nat, block_align),
        off == start as nat % size as nat,
        first == if size - off < n {
            size - off
        } else {
            n as int
        },
    ensures
        on_grid(off as nat, block_align),
        on_grid(first as nat, block_align),
        on_grid((n - first) as nat, block_align),
{
    lemma_grid_fold(start as nat, size as nat, block_align);
    lemma_mod_bound(start as int, size as int);
    lemma_grid_difference(size as nat, off as nat, block_align);
    lemma_grid_difference(n as nat, first as nat, block_align);
}

/// Advancing a position on the grid by a frame-aligned interval keeps it on the grid.
pub proof fn law_advance_keeps_frame_grid(pos: nat, bytes: nat, block_align: nat)
    requires
        on_grid(pos, block_align),
    ensures
        on_grid(pos + aligned_down(bytes, block_align), block_align),
{
    lemma_aligned_down_on_grid(bytes, block_align);
    lemma_grid_sum(pos, aligned_down(bytes, block_align), block_align);
}

/// What one aligned advance holds back, a later one makes up: measured from one anchor, the
/// aligned position never trails the elapsed bytes by a whole frame, so nothing drifts.
pub proof fn law_aligned_advance_does_not_drift(anchor: nat, elapsed: nat, block_align: nat)
    requires
        on_grid(anchor, block_align),
    ensures
        anchor + aligned_down(elapsed, block_align) <= anchor + elapsed,
        anchor + elapsed < anchor + aligned_down(elapsed, block_align) + block_align,
{
    lemma_aligned_down_on_grid(elapsed, block_align);
}

/// The bytes of an interval are the whole bytes of the time that it lasts at the byte rate: never
/// more, and less than one byte short; a second gives the byte rate itself. Nothing is due without
/// a counter or a rate.
pub proof fn law_interval_is_counted_in_whole_bytes(ticks: nat, freq: nat, rate: nat)
    ensures
        freq == 0 || rate == 0 ==> interval_bytes(ticks, freq, rate) == 0,
        freq > 0 && rate > 0 && ticks * rate <= u64::MAX ==> {
            &&& interval_bytes(ticks, freq, rate) * freq <= ticks * rate
            &&& ticks * rate < (interval_bytes(ticks, freq, rate) + 1) * freq
        },
        freq > 0 && freq * rate <= u64::MAX ==> interval_bytes(freq, freq, rate) == rate,
{
    if freq > 0 && rate > 0 {
        let x = (ticks * rate) as int;
        lemma_fundamental_div_mod(x, freq as int);
        lemma_mod_bound(x, freq as int);
        let q = x / (freq as int);
        assert(q * freq <= x && x < (q + 1) * freq) by (nonlinear_arith)
            requires
                x == freq * q + x % (freq as int),
                0 <= x % (freq as int) < freq,
        ;
        lemma_div_multiples_vanish(rate as int, freq as int);
        lemma_mul_is_commutative(freq as int, rate as int);
    }
}

/// A longer interval never counts fewer bytes.
pub proof fn law_longer_interval_counts_more(a: nat, b: nat, freq: nat, rate: nat)
    requires
        a <= b,
    ensures
        interval_bytes(a, freq, rate) <= interval_bytes(b, freq, rate),
{
    if freq > 0 && rate > 0 {
        assert(a * rate <= b * rate) by (nonlinear_arith)
            requires
                a <= b,
        ;
        lemma_div_is_ordered((a * rate) as int, (b * rate) as int, freq as int);
        if a * rate <= u64::MAX {
            lemma_div_is_ordered((a * rate) as int, u64::MAX as int, freq as int);
        }
    }
}

/// Rounding down to frames takes away less than one frame and lands on a multiple of the frame
/// size; without a frame size nothing is taken away.
pub proof fn law_rounding_keeps_whole_frames(bytes: nat, block_align: nat)
    ensures
        block_align == 0 ==> aligned_down(bytes, block_align) == bytes,
        block_align > 0 ==> {
            &&& aligned_down(bytes, block_align) % block_align == 0
            &&& aligned_down(bytes, block_align) <= bytes
            &&& bytes < aligned_down(bytes, block_align) + block_align
        },
{
    if block_align > 0 {
        lemma_aligned_down_on_grid(bytes, block_align);
    }
}

} // verus!
