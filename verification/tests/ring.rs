use vdev::endpoint_names::{
    topology_capture_name, topology_render_name, wave_capture_name, wave_render_name,
    TOPO_CAPTURE_TO_WAVE_PIN, TOPO_RENDER_FROM_WAVE_PIN, WAVE_PIN,
};
use vdev::position::{bytes_for_interval, frame_aligned_advance, mod_position, split_ring_span};
use vdev::ringbuffer::RingBuffer;

fn ring(capacity: usize) -> RingBuffer {
    RingBuffer::new(vec![0u8; capacity], capacity)
}

fn wide_to_string(wide: &[u16]) -> String {
    let end = wide.iter().position(|&c| c == 0).expect("NUL");
    wide[..end]
        .iter()
        .map(|&c| char::from_u32(u32::from(c)).expect("ASCII"))
        .collect()
}

#[test]
fn subdevice_names_match_inf_templates() {
    assert_eq!(wide_to_string(&wave_capture_name()), "WaveCapture-0");
    assert_eq!(wide_to_string(&wave_render_name()), "WaveRender-0");
    assert_eq!(wide_to_string(&topology_capture_name()), "TopologyCapture-0");
    assert_eq!(wide_to_string(&topology_render_name()), "TopologyRender-0");
}

#[test]
fn physical_connection_pins() {
    assert_eq!(WAVE_PIN, 0);
    assert_eq!(TOPO_RENDER_FROM_WAVE_PIN, 0);
    assert_eq!(TOPO_CAPTURE_TO_WAVE_PIN, 1);
}

#[test]
fn bytes_for_interval_10ms_at_48k_16bit_stereo() {
    assert_eq!(bytes_for_interval(100_000, 10_000_000, 192_000), 1_920);
    assert_eq!(bytes_for_interval(10_000, 10_000_000, 192_000), 192);
}

#[test]
fn bytes_for_interval_guards() {
    assert_eq!(bytes_for_interval(1_000, 0, 192_000), 0);
    assert_eq!(bytes_for_interval(1_000, 10_000_000, 0), 0);
    assert_eq!(bytes_for_interval(0, 10_000_000, 192_000), 0);
}

#[test]
fn bytes_for_interval_saturates() {
    assert_eq!(bytes_for_interval(u64::MAX, 1, u64::MAX), u64::MAX);
}

#[test]
fn bytes_for_interval_is_not_frame_aligned() {
    assert_eq!(bytes_for_interval(73_000, 10_000_000, 192_000), 1_401);
    assert_ne!(1_401 % 4, 0);
    assert_eq!(bytes_for_interval(5_000, 10_000_000, 192_000), 96);
}

#[test]
fn frame_aligned_advance_keeps_positions_on_frame_grid() {
    const BLOCK: u32 = 4;
    assert_eq!(frame_aligned_advance(1_401, BLOCK), 1_400);
    assert_eq!(frame_aligned_advance(3, BLOCK), 0);
    assert_eq!(frame_aligned_advance(0, BLOCK), 0);
    assert_eq!(frame_aligned_advance(1_920, BLOCK), 1_920);
    assert_eq!(frame_aligned_advance(5, 0), 5);

    let mut pos = 0u64;
    for delta in [7u64, 1_401, 1, 3, 1_920, 19, 96, 100_003, 4] {
        pos += frame_aligned_advance(delta, BLOCK);
        assert_eq!(pos % u64::from(BLOCK), 0, "off the grid after {delta}");
    }
    let mut old = 0u64;
    for delta in [7u64, 1_401, 1, 3, 1_920, 19, 96, 100_003, 4] {
        old += delta;
    }
    assert_ne!(old % u64::from(BLOCK), 0);
}

#[test]
fn split_ring_span_keeps_frame_grid_when_inputs_aligned() {
    const BLOCK: u32 = 4;
    const DMA: usize = 8_192;
    let mut pos = 0u64;
    for delta in [1_401u64, 1_920, 19, 96, 100_003] {
        let n = frame_aligned_advance(delta, BLOCK) as usize;
        let (off, first) = split_ring_span(pos as usize, n, DMA);
        assert_eq!(off % 4, 0);
        assert_eq!(first % 4, 0);
        assert_eq!((n - first) % 4, 0);
        pos += n as u64;
        assert_eq!((pos as usize % DMA) % 4, 0);
    }
}

#[test]
fn split_ring_span_cases() {
    assert_eq!(split_ring_span(0, 4, 8), (0, 4));
    assert_eq!(split_ring_span(6, 8, 8), (6, 2));
    assert_eq!(split_ring_span(7, 20, 8), (7, 1));
    assert_eq!(split_ring_span(3, 0, 8), (3, 0));
    assert_eq!(split_ring_span(0, 5, 0), (0, 0));
}

#[test]
fn mod_position_cases() {
    assert_eq!(mod_position(10, 0), 0);
    assert_eq!(mod_position(192_000 + 5, 192_000), 5);
    assert_eq!(mod_position(u64::MAX, 4), 3);
}

#[test]
fn write_read_roundtrip() {
    let mut rb = ring(64);
    let payload = b"hello vdev audio";
    assert_eq!(rb.write(payload), payload.len());
    let mut out = [0u8; 64];
    let n = rb.read(&mut out);
    assert_eq!(n, payload.len());
    assert_eq!(&out[..n], payload);
}

#[test]
fn wraps_around() {
    let mut rb = ring(8);
    assert_eq!(rb.write(&[1, 2, 3, 4]), 4);
    assert_eq!(rb.write(&[5, 6, 7, 8]), 4);
    assert_eq!(rb.write(&[9]), 0);
    let mut out = [0u8; 4];
    assert_eq!(rb.read(&mut out), 4);
    assert_eq!(&out, &[1, 2, 3, 4]);
    assert_eq!(rb.write(&[9, 10, 11, 12]), 4);
    let mut out2 = [0u8; 8];
    assert_eq!(rb.read(&mut out2), 8);
    assert_eq!(&out2, &[5, 6, 7, 8, 9, 10, 11, 12]);
}

#[test]
fn empty_read_zero() {
    let mut rb = ring(16);
    let mut out = [0u8; 8];
    assert_eq!(rb.read(&mut out), 0);
}

#[test]
fn write_splits_across_tail_boundary() {
    let mut rb = ring(8);
    assert_eq!(rb.write(&[1, 2, 3]), 3);
    let mut one = [0u8; 1];
    assert_eq!(rb.read(&mut one), 1);
    assert_eq!(one[0], 1);
    let payload: [u8; 6] = [10, 11, 12, 13, 14, 15];
    assert_eq!(rb.write(&payload), 6);
    let mut out = [0u8; 8];
    assert_eq!(rb.read(&mut out), 8);
    assert_eq!(&out, &[2, 3, 10, 11, 12, 13, 14, 15]);
}

#[test]
fn read_splits_across_tail_boundary() {
    let mut rb = ring(8);
    assert_eq!(rb.write(&(1..=8).collect::<Vec<u8>>()), 8);
    let mut out = [0u8; 6];
    assert_eq!(rb.read(&mut out), 6);
    assert_eq!(&out, &[1, 2, 3, 4, 5, 6]);
    assert_eq!(rb.write(&[9, 10, 11]), 3);
    let mut out2 = [0u8; 5];
    assert_eq!(rb.read(&mut out2), 5);
    assert_eq!(&out2, &[7, 8, 9, 10, 11]);
}

#[test]
fn full_capacity_write_after_partial_read() {
    let mut rb = ring(8);
    assert_eq!(rb.write(&[1, 2, 3, 4]), 4);
    let mut out = [0u8; 4];
    assert_eq!(rb.read(&mut out), 4);
    assert_eq!(rb.write(&[5, 6, 7, 8, 9, 10, 11, 12]), 8);
    let mut out2 = [0u8; 8];
    assert_eq!(rb.read(&mut out2), 8);
    assert_eq!(&out2, &[5, 6, 7, 8, 9, 10, 11, 12]);
}

#[test]
fn write_drop_oldest_overwrites_when_full() {
    let mut rb = ring(8);
    assert_eq!(rb.write(&[1, 2, 3, 4, 5, 6, 7, 8]), 8);
    assert_eq!(rb.write(&[9]), 0);
    assert_eq!(rb.write_drop_oldest(&[9, 10]), 2);
    let mut out = [0u8; 8];
    assert_eq!(rb.read(&mut out), 8);
    assert_eq!(&out, &[3, 4, 5, 6, 7, 8, 9, 10]);
}

#[test]
fn read_zero_fill_pads_underrun() {
    let mut rb = ring(8);
    assert_eq!(rb.write(&[7, 8, 9]), 3);
    let mut out = [0xFFu8; 6];
    assert_eq!(rb.read_zero_fill(&mut out), 3);
    assert_eq!(&out, &[7, 8, 9, 0, 0, 0]);
    let mut out2 = [0xFFu8; 2];
    assert_eq!(rb.read_zero_fill(&mut out2), 0);
    assert_eq!(&out2, &[0, 0]);
}

struct XorShift(u64);

impl XorShift {
    fn next(&mut self) -> u64 {
        let mut x = self.0;
        x ^= x << 13;
        x ^= x >> 7;
        x ^= x << 17;
        self.0 = x;
        x
    }
}

#[test]
fn property_matches_linear_reference() {
    const CAP: usize = 13;
    let mut rb = ring(CAP);
    let mut rng = XorShift(0x9E37_79B9_7F4A_7C15);
    let mut reference: Vec<u8> = Vec::new();
    let mut seq: u8 = 0;
    for _ in 0..4096 {
        if rng.next() & 1 == 0 || reference.is_empty() {
            let k = (rng.next() % CAP as u64) as usize + 1;
            let payload: Vec<u8> = (0..k)
                .map(|_| {
                    seq = seq.wrapping_add(1);
                    seq
                })
                .collect();
            let expect = (CAP - reference.len()).min(k);
            assert_eq!(rb.write(&payload), expect);
            reference.extend_from_slice(&payload[..expect]);
        } else {
            let k = (rng.next() % reference.len() as u64) as usize + 1;
            let mut dst = vec![0u8; k];
            let got = rb.read(&mut dst);
            assert_eq!(got, k);
            assert_eq!(&dst[..got], &reference[..got]);
            reference.drain(..got);
        }
        assert_eq!(rb.readable(), reference.len());
        assert_eq!(rb.writable(), CAP - reference.len());
    }
}

#[test]
fn ring_counts_add_up_to_the_capacity() {
    let mut rb = ring(5);
    assert_eq!(rb.capacity(), 5);
    assert_eq!((rb.readable(), rb.writable()), (0, 5));
    assert_eq!(rb.write(&[1, 2, 3]), 3);
    assert_eq!((rb.readable(), rb.writable()), (3, 2));
    rb.drop_oldest(2);
    assert_eq!((rb.readable(), rb.writable()), (1, 4));
    rb.drop_oldest(9);
    assert_eq!((rb.readable(), rb.writable()), (0, 5));
}

#[test]
fn dropping_the_oldest_keeps_the_newest_of_a_long_write() {
    let mut rb = ring(4);
    assert_eq!(rb.write(&[1, 2]), 2);
    let taken = rb.write_drop_oldest(&[3, 4, 5, 6, 7, 8]);
    let mut out = [0u8; 4];
    assert_eq!(rb.read(&mut out), 4);
    assert_eq!(taken, 6);
    assert_eq!(out, [5, 6, 7, 8]);
}

#[test]
fn rows_of_calls_lose_nothing() {
    let mut r = ring(5);
    let mut taken = Vec::new();
    let mut given = Vec::new();
    for k in 0..40u8 {
        let src = [k, k + 100, k + 200];
        let n = r.write(&src[..usize::from(k % 4)]);
        taken.extend_from_slice(&src[..n]);
        let mut dst = [0u8; 4];
        let n = r.read(&mut dst[..usize::from(k * 7 % 5)]);
        given.extend_from_slice(&dst[..n]);
        assert_eq!(given, taken[..given.len()]);
        assert_eq!(r.readable(), taken.len() - given.len());
        assert_eq!(r.readable() + r.writable(), 5);
    }
    let mut dst = [0u8; 5];
    let n = r.read(&mut dst);
    given.extend_from_slice(&dst[..n]);
    assert_eq!(given, taken);
}
