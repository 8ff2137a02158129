//! Deterministic PRNG and protocol fuzzing tests.

use zorv::protocol::fuzz::{
    base_frame_bytes, drain_frame_decode, drain_handshake_decode, fuzz_protocol, mutate, Prng,
};

#[test]
fn prng_is_deterministic() {
    let mut a = Prng::new(42);
    let mut b = Prng::new(42);
    for _ in 0..1000 {
        assert_eq!(a.next_u64(), b.next_u64());
    }
}

#[test]
fn prng_index_within_range() {
    let mut prng = Prng::new(7);
    for _ in 0..1000 {
        let i = prng.next_usize(64);
        assert!(i < 64);
    }
    assert_eq!(prng.next_usize(0), 0);
}

#[test]
fn fuzz_frame_decode_smoke() {
    let executed = fuzz_protocol(0xF00D, 500);
    assert!(executed > 0);
}

#[test]
fn fuzz_handshake_payload_smoke() {
    let mut prng = Prng::new(0xBEEF);
    for _ in 0..2000 {
        let len = prng.next_usize(512);
        let payload = prng.next_bytes(len);
        drain_handshake_decode(&payload);
        drain_handshake_decode(&prng.next_bytes(0));
    }
}

#[test]
fn fuzz_never_hangs_on_oversized_length() {
    let mut prng = Prng::new(1);
    for _ in 0..1000 {
        let mut mutated = Vec::new();
        let base = base_frame_bytes(&mut prng);
        mutate(&mut prng, &base, &mut mutated);
        drain_frame_decode(&mut mutated.clone());
    }
}

#[test]
fn fuzz_counts_six_decodes_per_iteration() {
    assert_eq!(fuzz_protocol(3, 10), 60);
}

#[test]
fn prng_bytes_have_requested_length_and_repeat_with_seed() {
    let mut a = Prng::new(99);
    let mut b = Prng::new(99);
    let x = a.next_bytes(33);
    let y = b.next_bytes(33);
    assert_eq!(x.len(), 33);
    assert_eq!(x, y);
    let first = Prng::new(0).next_u64();
    // `new` advances the state once, so this is splitmix64's second output from 0.
    assert_eq!(first, 0x6E789E6AA1B965F4);
}

#[test]
fn prng_bool_is_low_bit_of_next_value() {
    let mut a = Prng::new(9);
    let mut b = Prng::new(9);
    for _ in 0..100 {
        assert_eq!(a.next_bool(), b.next_u64() & 1 == 1);
    }
}

#[test]
fn mutations_take_one_of_five_forms() {
    let base: Vec<u8> = (0u8..40).collect();
    let mut prng = Prng::new(5);
    for _ in 0..500 {
        let mut out = Vec::new();
        mutate(&mut prng, &base, &mut out);
        let prefix = out.len() <= base.len() && out[..] == base[..out.len()];
        let doubled = out.len() == 2 * base.len() && out[..40] == base[..] && out[40..] == base[..];
        let flipped = out.len() == base.len()
            && out.iter().zip(base.iter()).map(|(a, b)| (a ^ b).count_ones()).sum::<u32>() == 1;
        let forged = out.len() >= 12 && out[0..2] == [0x3C, 0x5A] && out[2] == 1 && out[8..12] == [0xFF; 4];
        let block = out.len() < 256;
        assert!(prefix || doubled || flipped || forged || block);
    }
}

#[test]
fn drained_buffer_keeps_trailing_bytes() {
    let mut prng = Prng::new(11);
    let frame = base_frame_bytes(&mut prng);
    let mut buf = frame.clone();
    buf.extend_from_slice(&frame);
    buf.extend_from_slice(&[1, 2, 3]);
    drain_frame_decode(&mut buf);
    assert_eq!(buf, vec![1, 2, 3]);
}
