use aquarium::rng::{
    body_id_hash, body_seed_words, hash_noise_bits, rotate_left_32, rotate_left_64, SeededRng,
};

#[test]
fn seeded_rng_sequence() {
    let mut rng = SeededRng::new(0);
    assert_eq!(rng.state, 0x517c_c1b7_2722_0a95);
    assert_eq!(rng.next_bits(), 14569742);
    assert_eq!(rng.state, 8566212461350739816);
    assert_eq!(rng.next_bits(), 1276916);
    assert_eq!(rng.next_bits(), 10167372);
    assert_eq!(rng.state, 2734930210671318713);
}

#[test]
fn seeded_rng_is_deterministic() {
    let mut a = SeededRng::new(9);
    let mut b = SeededRng::new(9);
    for _ in 0..100 {
        let x = a.next_bits();
        assert_eq!(x, b.next_bits());
        assert!(x < 1 << 24);
    }
    let mut c = SeededRng::new(9);
    assert_eq!(c.next_bits(), 10083546);
}

#[test]
fn noise_bits() {
    assert_eq!(hash_noise_bits(0, 0), 0);
    assert_eq!(hash_noise_bits(1, 2), 15224872);
    assert_eq!(hash_noise_bits(12345, 7), 12199850);
}

#[test]
fn fnv_body_hashes() {
    assert_eq!(body_id_hash(""), 2166136261);
    assert_eq!(body_id_hash("a"), 3826002220);
    assert_eq!(body_id_hash("epiphany-agent"), 2429784439);
    assert_eq!(body_seed_words("epiphany-agent"), (2429784439, 45925695, 1042523043));
    assert_eq!(body_seed_words("aetheria-lore"), (4161451445, 3415922297, 1595395889));
}

#[test]
fn rotations() {
    assert_eq!(rotate_left_64(1, 63), 1 << 63);
    assert_eq!(rotate_left_64(0x8000_0000_0000_0001, 1), 3);
    assert_eq!(rotate_left_32(0x8000_0001, 4), 0x18);
    assert_eq!(rotate_left_32(0xdead_beef, 11), 0xdeadbeefu32.rotate_left(11));
}

#[test]
fn rotations_take_any_count() {
    for n in [0u32, 1, 17, 31, 32, 33, 63, 64, 65, 100, u32::MAX] {
        assert_eq!(rotate_left_64(0x0123_4567_89ab_cdef, n), 0x0123_4567_89ab_cdefu64.rotate_left(n));
        assert_eq!(rotate_left_32(0x89ab_cdef, n), 0x89ab_cdefu32.rotate_left(n));
    }
}
