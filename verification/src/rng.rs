//! The integer cores of the synth's seeded generators and of the renderer's
//! per-body seeds. Each produces exact bits; turning bits into a float in
//! `[0, 1)` or `[-1, 1)` happens where the floats live.

use vstd::prelude::*;
use vstd::string::StringSliceAdditionalSpecFns;

verus! {

/// `x` rotated left by `n` bits, as `u64::rotate_left` does: by `n`
/// modulo 64.
pub open spec fn rotl64(x: u64, n: u32) -> u64 {
    let m = n % 64;
    if m == 0 {
        x
    } else {
        (x << m) | (x >> (64 - m) as u32)
    }
}

/// `x` rotated left by `n` bits, as `u32::rotate_left` does: by `n`
/// modulo 32.
pub open spec fn rotl32(x: u32, n: u32) -> u32 {
    let m = n % 32;
    if m == 0 {
        x
    } else {
        (x << m) | (x >> (32 - m) as u32)
    }
}

pub fn rotate_left_64(x: u64, n: u32) -> (r: u64)
    ensures
        r == rotl64(x, n),
{
    let m = n % 64;
    if m == 0 {
        x
    } else {
        (x << m) | (x >> (64 - m))
    }
}

pub fn rotate_left_32(x: u32, n: u32) -> (r: u32)
    ensures
        r == rotl32(x, n),
{
    let m = n % 32;
    if m == 0 {
        x
    } else {
        (x << m) | (x >> (32 - m))
    }
}

/// A small seeded generator: splitmix-style state steps, 24 random bits per
/// draw.
#[derive(Clone, Copy, Debug)]
pub struct SeededRng {
    pub state: u64,
}

pub open spec fn rng_seed_state(seed: u64) -> u64 {
    seed ^ 0x517c_c1b7_2722_0a95
}

/// The state after one draw.
pub open spec fn rng_step(state: u64) -> u64 {
    rotl64(state.wrapping_add(0x9e37_79b9_7f4a_7c15), 17)
}

/// The 24 bits that a draw yields from its new state.
pub open spec fn rng_bits(state: u64) -> u32 {
    let v1 = state ^ (state >> 30u64);
    let v2 = v1.wrapping_mul(0xbf58_476d_1ce4_e5b9);
    let v3 = v2 ^ (v2 >> 27u64);
    let v4 = v3.wrapping_mul(0x94d0_49bb_1331_11eb);
    let v5 = v4 ^ (v4 >> 31u64);
    (v5 >> 40u64) as u32
}

impl SeededRng {
    pub fn new(seed: u64) -> (r: SeededRng)
        ensures
            r.state == rng_seed_state(seed),
    {
        SeededRng { state: seed ^ 0x517c_c1b7_2722_0a95 }
    }

    /// Advances the generator and returns its next 24 bits; as a float in
    /// `[0, 1)` a draw is these bits over 2^24.
    pub fn next_bits(&mut self) -> (b: u32)
        ensures
            final(self).state == rng_step(old(self).state),
            b == rng_bits(final(self).state),
            b < 0x100_0000,
    {
        self.state = rotate_left_64(self.state.wrapping_add(0x9e37_79b9_7f4a_7c15), 17);
        let mut value = self.state;
        value = value ^ (value >> 30);
        value = value.wrapping_mul(0xbf58_476d_1ce4_e5b9);
        value = value ^ (value >> 27);
        value = value.wrapping_mul(0x94d0_49bb_1331_11eb);
        value = value ^ (value >> 31);
        assert(value >> 40u64 < 0x100_0000) by (bit_vector);
        (value >> 40) as u32
    }
}

/// The splitmix64 finalizer: xor-shift by 30, multiply, xor-shift by 27,
/// multiply, xor-shift by 31.
pub open spec fn splitmix64_mix(x: u64) -> u64 {
    let v1 = x ^ (x >> 30u64);
    let v2 = (v1 * 0xbf58_476d_1ce4_e5b9u64) as u64;
    let v3 = v2 ^ (v2 >> 27u64);
    let v4 = (v3 * 0x94d0_49bb_1331_11ebu64) as u64;
    v4 ^ (v4 >> 31u64)
}

/// `splitmix64_mix` run backwards.
pub open spec fn splitmix64_unmix(x: u64) -> u64 {
    let v4 = x ^ (x >> 31u64) ^ (x >> 62u64);
    let v3 = (v4 * 0x3196_42b2_d24d_8ec3u64) as u64;
    let v2 = v3 ^ (v3 >> 27u64) ^ (v3 >> 54u64);
    let v1 = (v2 * 0x96de_1b17_3f11_9089u64) as u64;
    v1 ^ (v1 >> 30u64) ^ (v1 >> 60u64)
}

proof fn lemma_splitmix64_steps_undone(x: u64)
    ensures
        (x ^ (x >> 30u64)) ^ ((x ^ (x >> 30u64)) >> 30u64) ^ ((x ^ (x >> 30u64)) >> 60u64) == x,
        (x ^ (x >> 27u64)) ^ ((x ^ (x >> 27u64)) >> 27u64) ^ ((x ^ (x >> 27u64)) >> 54u64) == x,
        (x ^ (x >> 31u64)) ^ ((x ^ (x >> 31u64)) >> 31u64) ^ ((x ^ (x >> 31u64)) >> 62u64) == x,
        (((x * 0xbf58_476d_1ce4_e5b9u64) as u64) * 0x96de_1b17_3f11_9089u64) as u64 == x,
        (((x * 0x94d0_49bb_1331_11ebu64) as u64) * 0x3196_42b2_d24d_8ec3u64) as u64 == x,
{
    assert((x ^ (x >> 30u64)) ^ ((x ^ (x >> 30u64)) >> 30u64) ^ ((x ^ (x >> 30u64)) >> 60u64) == x)
        by (bit_vector);
    assert((x ^ (x >> 27u64)) ^ ((x ^ (x >> 27u64)) >> 27u64) ^ ((x ^ (x >> 27u64)) >> 54u64) == x)
        by (bit_vector);
    assert((x ^ (x >> 31u64)) ^ ((x ^ (x >> 31u64)) >> 31u64) ^ ((x ^ (x >> 31u64)) >> 62u64) == x)
        by (bit_vector);
    assert((((x * 0xbf58_476d_1ce4_e5b9u64) as u64) * 0x96de_1b17_3f11_9089u64) as u64 == x)
        by (bit_vector);
    assert((((x * 0x94d0_49bb_1331_11ebu64) as u64) * 0x3196_42b2_d24d_8ec3u64) as u64 == x)
        by (bit_vector);
}

/// A draw's 24 bits are the top bits of the splitmix64 finalizer applied to
/// the whole new state, and the finalizer loses nothing: two different
/// states mix to different words.
pub proof fn law_draw_mixes_whole_state(state: u64, other: u64)
    ensures
        rng_bits(state) == (splitmix64_mix(state) >> 40u64) as u32,
        splitmix64_unmix(splitmix64_mix(state)) == state,
        state != other ==> splitmix64_mix(state) != splitmix64_mix(other),
{
    let v1 = state ^ (state >> 30u64);
    lemma_wrapping_mul_truncates(v1, 0xbf58_476d_1ce4_e5b9);
    let v2 = (v1 * 0xbf58_476d_1ce4_e5b9u64) as u64;
    let v3 = v2 ^ (v2 >> 27u64);
    lemma_wrapping_mul_truncates(v3, 0x94d0_49bb_1331_11eb);
    let v4 = (v3 * 0x94d0_49bb_1331_11ebu64) as u64;
    lemma_splitmix64_steps_undone(v4);
    lemma_splitmix64_steps_undone(v3);
    lemma_splitmix64_steps_undone(v2);
    lemma_splitmix64_steps_undone(v1);
    lemma_splitmix64_steps_undone(state);
    let w1 = other ^ (other >> 30u64);
    let w2 = (w1 * 0xbf58_476d_1ce4_e5b9u64) as u64;
    let w3 = w2 ^ (w2 >> 27u64);
    let w4 = (w3 * 0x94d0_49bb_1331_11ebu64) as u64;
    lemma_splitmix64_steps_undone(w4);
    lemma_splitmix64_steps_undone(w3);
    lemma_splitmix64_steps_undone(w2);
    lemma_splitmix64_steps_undone(w1);
    lemma_splitmix64_steps_undone(other);
}

/// Reference values of the generator seeded with 0: its first two states
/// and draws.
pub proof fn law_rng_reference_values()
    ensures
        rng_step(rng_seed_state(0)) == 0x76e1_4cd9_0d55_df68,
        rng_bits(0x76e1_4cd9_0d55_df68) == 14569742,
        rng_step(0x76e1_4cd9_0d55_df68) == 0x8d25_1940_b6fa_2a31,
        rng_bits(0x8d25_1940_b6fa_2a31) == 1276916,
{
    assert(rng_seed_state(0) == 0x517c_c1b7_2722_0a95) by (bit_vector);
    assert(rotl64(0x517c_c1b7_2722_0a95u64.wrapping_add(0x9e37_79b9_7f4a_7c15), 17)
        == 0x76e1_4cd9_0d55_df68u64) by (bit_vector);
    assert(rotl64(0x76e1_4cd9_0d55_df68u64.wrapping_add(0x9e37_79b9_7f4a_7c15), 17)
        == 0x8d25_1940_b6fa_2a31u64) by (bit_vector);
    law_draw_mixes_whole_state(0x76e1_4cd9_0d55_df68, 0);
    law_draw_mixes_whole_state(0x8d25_1940_b6fa_2a31, 0);
    assert((splitmix64_mix(0x76e1_4cd9_0d55_df68u64) >> 40u64) as u32 == 14569742u32)
        by (bit_vector);
    assert((splitmix64_mix(0x8d25_1940_b6fa_2a31u64) >> 40u64) as u32 == 1276916u32)
        by (bit_vector);
}

/// The bits of one noise slot: the high 24 bits of the mixed seed and slot;
/// as a noise sample they are `bits / 2^23 * 2 - 1`.
pub open spec fn spec_hash_noise_bits(seed: u64, slot: u32) -> u32 {
    let v0 = seed ^ (slot as u64).wrapping_mul(0x9e37_79b9_7f4a_7c15);
    let v1 = v0 ^ (v0 >> 33u64);
    let v2 = v1.wrapping_mul(0xff51_afd7_ed55_8ccd);
    let v3 = v2 ^ (v2 >> 33u64);
    let v4 = v3.wrapping_mul(0xc4ce_b9fe_1a85_ec53);
    let v5 = v4 ^ (v4 >> 33u64);
    (v5 >> 40u64) as u32
}

pub fn hash_noise_bits(seed: u64, slot: u32) -> (b: u32)
    ensures
        b == spec_hash_noise_bits(seed, slot),
        b < 0x100_0000,
{
    let mut value = seed ^ (slot as u64).wrapping_mul(0x9e37_79b9_7f4a_7c15);
    value = value ^ (value >> 33);
    value = value.wrapping_mul(0xff51_afd7_ed55_8ccd);
    value = value ^ (value >> 33);
    value = value.wrapping_mul(0xc4ce_b9fe_1a85_ec53);
    value = value ^ (value >> 33);
    assert(value >> 40u64 < 0x100_0000) by (bit_vector);
    (value >> 40) as u32
}

/// MurmurHash3's 64-bit finalizer: xor-shift by 33, multiply, xor-shift,
/// multiply, xor-shift.
pub open spec fn fmix64(x: u64) -> u64 {
    let v1 = x ^ (x >> 33u64);
    let v2 = (v1 * 0xff51_afd7_ed55_8ccdu64) as u64;
    let v3 = v2 ^ (v2 >> 33u64);
    let v4 = (v3 * 0xc4ce_b9fe_1a85_ec53u64) as u64;
    v4 ^ (v4 >> 33u64)
}

/// `fmix64` run backwards: each step undone in reverse order.
pub open spec fn fmix64_inverse(x: u64) -> u64 {
    let v4 = x ^ (x >> 33u64);
    let v3 = (v4 * 0x9cb4_b2f8_1293_37dbu64) as u64;
    let v2 = v3 ^ (v3 >> 33u64);
    let v1 = (v2 * 0x4f74_430c_22a5_4005u64) as u64;
    v1 ^ (v1 >> 33u64)
}

proof fn lemma_xorshift33_undone(x: u64)
    ensures
        (x ^ (x >> 33u64)) ^ ((x ^ (x >> 33u64)) >> 33u64) == x,
{
    assert((x ^ (x >> 33u64)) ^ ((x ^ (x >> 33u64)) >> 33u64) == x) by (bit_vector);
}

proof fn lemma_first_multiplier_undone(x: u64)
    ensures
        (((x * 0xff51_afd7_ed55_8ccdu64) as u64) * 0x4f74_430c_22a5_4005u64) as u64 == x,
{
    assert((((x * 0xff51_afd7_ed55_8ccdu64) as u64) * 0x4f74_430c_22a5_4005u64) as u64 == x)
        by (bit_vector);
}

proof fn lemma_second_multiplier_undone(x: u64)
    ensures
        (((x * 0xc4ce_b9fe_1a85_ec53u64) as u64) * 0x9cb4_b2f8_1293_37dbu64) as u64 == x,
{
    assert((((x * 0xc4ce_b9fe_1a85_ec53u64) as u64) * 0x9cb4_b2f8_1293_37dbu64) as u64 == x)
        by (bit_vector);
}

proof fn lemma_wrapping_mul_truncates(a: u64, b: u64)
    ensures
        a.wrapping_mul(b) == (a * b) as u64,
{
    assert(((a * b) % 0x1_0000_0000_0000_0000) as u64 == (a * b) as u64) by (bit_vector);
}

/// The finalizer loses nothing: `fmix64_inverse` gives its input back, so
/// two different words never mix to the same word.
pub proof fn law_fmix64_invertible(x: u64, y: u64)
    ensures
        fmix64_inverse(fmix64(x)) == x,
        x != y ==> fmix64(x) != fmix64(y),
{
    let x1 = x ^ (x >> 33u64);
    let x2 = (x1 * 0xff51_afd7_ed55_8ccdu64) as u64;
    let x3 = x2 ^ (x2 >> 33u64);
    let x4 = (x3 * 0xc4ce_b9fe_1a85_ec53u64) as u64;
    lemma_xorshift33_undone(x4);
    lemma_second_multiplier_undone(x3);
    lemma_xorshift33_undone(x2);
    lemma_first_multiplier_undone(x1);
    lemma_xorshift33_undone(x);
    let y1 = y ^ (y >> 33u64);
    let y2 = (y1 * 0xff51_afd7_ed55_8ccdu64) as u64;
    let y3 = y2 ^ (y2 >> 33u64);
    let y4 = (y3 * 0xc4ce_b9fe_1a85_ec53u64) as u64;
    lemma_xorshift33_undone(y4);
    lemma_second_multiplier_undone(y3);
    lemma_xorshift33_undone(y2);
    lemma_first_multiplier_undone(y1);
    lemma_xorshift33_undone(y);
}

/// A noise slot's bits are the top 24 bits of `fmix64` applied to the whole
/// 64-bit seed xor the slot times the golden-ratio word; so for one slot,
/// two different seeds (even ones that differ only in their high half) mix
/// to different words.
pub proof fn law_noise_mixes_whole_seed(seed: u64, other: u64, slot: u32)
    ensures
        spec_hash_noise_bits(seed, slot) == (fmix64(
            seed ^ (slot as u64).wrapping_mul(0x9e37_79b9_7f4a_7c15),
        ) >> 40u64) as u32,
        seed != other ==> fmix64(seed ^ (slot as u64).wrapping_mul(0x9e37_79b9_7f4a_7c15))
            != fmix64(other ^ (slot as u64).wrapping_mul(0x9e37_79b9_7f4a_7c15)),
{
    let k = (slot as u64).wrapping_mul(0x9e37_79b9_7f4a_7c15);
    let v0 = seed ^ k;
    let v1 = v0 ^ (v0 >> 33u64);
    lemma_wrapping_mul_truncates(v1, 0xff51_afd7_ed55_8ccd);
    let v2 = v1.wrapping_mul(0xff51_afd7_ed55_8ccd);
    let v3 = v2 ^ (v2 >> 33u64);
    lemma_wrapping_mul_truncates(v3, 0xc4ce_b9fe_1a85_ec53);
    law_fmix64_invertible(seed ^ k, other ^ k);
    if seed != other {
        assert(seed ^ k != other ^ k) by (bit_vector)
            requires
                seed != other,
        ;
    }
}

/// Reference values of the noise bits, for the patch player's noise seed
/// at slots 5 and 0, and for that seed with one bit of its high half
/// flipped.
pub proof fn law_noise_reference_values()
    ensures
        spec_hash_noise_bits(0x8a5c_51f7_d15c_a11d, 5) == 9772100,
        spec_hash_noise_bits(0x8a5c_51f7_d15c_a11d, 0) == 6370257,
        spec_hash_noise_bits(0x8a5c_50f7_d15c_a11d, 5) == 28982,
{
    law_noise_mixes_whole_seed(0x8a5c_51f7_d15c_a11d, 0, 5);
    law_noise_mixes_whole_seed(0x8a5c_51f7_d15c_a11d, 0, 0);
    law_noise_mixes_whole_seed(0x8a5c_50f7_d15c_a11d, 0, 5);
    lemma_wrapping_mul_truncates(5, 0x9e37_79b9_7f4a_7c15);
    lemma_wrapping_mul_truncates(0, 0x9e37_79b9_7f4a_7c15);
    assert((5u64 * 0x9e37_79b9_7f4a_7c15u64) as u64 == 0x1715_609f_7c74_6c69u64) by (bit_vector);
    assert((0u64 * 0x9e37_79b9_7f4a_7c15u64) as u64 == 0u64) by (bit_vector);
    assert((fmix64(0x8a5c_51f7_d15c_a11du64 ^ 0x1715_609f_7c74_6c69u64) >> 40u64) as u32 == 9772100u32)
        by (bit_vector);
    assert((fmix64(0x8a5c_51f7_d15c_a11du64 ^ 0u64) >> 40u64) as u32 == 6370257u32) by (bit_vector);
    assert((fmix64(0x8a5c_50f7_d15c_a11du64 ^ 0x1715_609f_7c74_6c69u64) >> 40u64) as u32 == 28982u32)
        by (bit_vector);
}

/// 32-bit FNV-1a over `bytes`.
pub open spec fn fnv1a(bytes: Seq<u8>) -> u32
    decreases bytes.len(),
{
    if bytes.len() == 0 {
        0x811c_9dc5
    } else {
        (fnv1a(bytes.drop_last()) ^ (bytes.last() as u32)).wrapping_mul(0x0100_0193)
    }
}

proof fn lemma_wrapping_mul_truncates_32(a: u32, b: u32)
    ensures
        a.wrapping_mul(b) == (a * b) as u32,
{
    assert(((a * b) % 0x1_0000_0000) as u32 == (a * b) as u32) by (bit_vector);
}

proof fn lemma_fnv1a_step(bytes: Seq<u8>, k: int, h: u32, next: u32)
    requires
        0 <= k < bytes.len(),
        fnv1a(bytes.take(k)) == h,
        ((h ^ (bytes[k] as u32)) * 0x0100_0193u32) as u32 == next,
    ensures
        fnv1a(bytes.take(k + 1)) == next,
{
    assert(bytes.take(k + 1).drop_last() =~= bytes.take(k));
    assert(bytes.take(k + 1).last() == bytes[k]);
    lemma_wrapping_mul_truncates_32(h ^ (bytes[k] as u32), 0x0100_0193);
}

/// The published FNV-1a (32-bit) values of the empty text, of `a` and of
/// `foobar`.
pub proof fn law_fnv1a_reference_values()
    ensures
        fnv1a(Seq::<u8>::empty()) == 0x811c_9dc5,
        fnv1a(seq![0x61u8]) == 0xe40c_292c,
        fnv1a(seq![0x66u8, 0x6fu8, 0x6fu8, 0x62u8, 0x61u8, 0x72u8]) == 0xbf9c_f968,
{
    let a = seq![0x61u8];
    assert(a.take(0) =~= Seq::<u8>::empty());
    assert(((0x811c_9dc5u32 ^ 0x61u32) * 0x0100_0193u32) as u32 == 0xe40c_292cu32) by (bit_vector);
    lemma_fnv1a_step(a, 0, 0x811c_9dc5, 0xe40c_292c);
    assert(a.take(1) =~= a);
    assert(((0x811c_9dc5u32 ^ 102u32) * 0x0100_0193u32) as u32 == 0xe30c2799u32) by (bit_vector);
    assert(((0xe30c2799u32 ^ 111u32) * 0x0100_0193u32) as u32 == 0x6222e842u32) by (bit_vector);
    assert(((0x6222e842u32 ^ 111u32) * 0x0100_0193u32) as u32 == 0xa9f37ed7u32) by (bit_vector);
    assert(((0xa9f37ed7u32 ^ 98u32) * 0x0100_0193u32) as u32 == 0x3f5076efu32) by (bit_vector);
    assert(((0x3f5076efu32 ^ 97u32) * 0x0100_0193u32) as u32 == 0x39aaa18au32) by (bit_vector);
    assert(((0x39aaa18au32 ^ 114u32) * 0x0100_0193u32) as u32 == 0xbf9cf968u32) by (bit_vector);
    let foobar = seq![0x66u8, 0x6fu8, 0x6fu8, 0x62u8, 0x61u8, 0x72u8];
    assert(foobar.take(0) =~= Seq::<u8>::empty());
    lemma_fnv1a_step(foobar, 0, 0x811c_9dc5u32, 0xe30c2799u32);
    lemma_fnv1a_step(foobar, 1, 0xe30c2799u32, 0x6222e842u32);
    lemma_fnv1a_step(foobar, 2, 0x6222e842u32, 0xa9f37ed7u32);
    lemma_fnv1a_step(foobar, 3, 0xa9f37ed7u32, 0x3f5076efu32);
    lemma_fnv1a_step(foobar, 4, 0x3f5076efu32, 0x39aaa18au32);
    lemma_fnv1a_step(foobar, 5, 0x39aaa18au32, 0xbf9cf968u32);
    assert(foobar.take(6) =~= foobar);
}

/// The FNV-1a hash of a body id's UTF-8 bytes.
pub fn body_id_hash(id: &str) -> (h: u32)
    ensures
        h == fnv1a(id.spec_bytes()),
{
    let bytes = id.as_bytes();
    let mut hash: u32 = 0x811c_9dc5;
    let mut i: usize = 0;
    proof {
        assert(bytes@.take(0) =~= seq![]);
    }
    while i < bytes.len()
        invariant
            i <= bytes@.len(),
            bytes@ == id.spec_bytes(),
            hash == fnv1a(bytes@.take(i as int)),
        decreases bytes@.len() - i,
    {
        proof {
            assert(bytes@.take(i + 1).drop_last() =~= bytes@.take(i as int));
            assert(bytes@.take(i + 1).last() == bytes@[i as int]);
        }
        hash = (hash ^ (bytes[i] as u32)).wrapping_mul(0x0100_0193);
        i = i + 1;
    }
    proof {
        assert(bytes@.take(bytes@.len() as int) =~= bytes@);
    }
    hash
}

/// The three seed words of a body: its id's hash, then that hash rotated by
/// 11 and by 23 bits and mixed with fixed words. As floats in `[0, 1]` each
/// is the word over `u32::MAX`.
pub fn body_seed_words(id: &str) -> (w: (u32, u32, u32))
    ensures
        w.0 == fnv1a(id.spec_bytes()),
        w.1 == rotl32(fnv1a(id.spec_bytes()), 11) ^ 0x9e37_79b9,
        w.2 == rotl32(fnv1a(id.spec_bytes()), 23) ^ 0x85eb_ca6b,
{
    let h = body_id_hash(id);
    (h, rotate_left_32(h, 11) ^ 0x9e37_79b9, rotate_left_32(h, 23) ^ 0x85eb_ca6b)
}

} // verus!
