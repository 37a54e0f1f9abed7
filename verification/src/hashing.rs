//! Perceptual-hash words: packing hash bytes big-endian into a `u64`, and the
//! Hamming distance between two packed words.

use vstd::prelude::*;

verus! {

/// Number of one bits in `x`.
pub open spec fn popcount(x: u64) -> nat
    decreases x,
{
    if x == 0 {
        0
    } else {
        proof {
            lemma_shr1_decreases(x);
        }
        (x & 1) as nat + popcount(x >> 1)
    }
}

/// Shifting a non-zero word right by one makes it smaller.
pub proof fn lemma_shr1_decreases(x: u64)
    requires
        x != 0,
    ensures
        x >> 1 < x,
{
    assert(x != 0 ==> x >> 1 < x) by (bit_vector);
}

/// Hamming distance between two 64-bit words: the number of bit positions at
/// which they differ.
pub open spec fn hamming(a: u64, b: u64) -> nat {
    popcount(a ^ b)
}

/// Hamming distance between two packed 64-bit hashes (number of differing bits).
pub fn hamming_distance(a: u64, b: u64) -> (d: u32)
    ensures
        d == hamming(a, b),
        d <= 64,
{
    let ghost total = popcount(a ^ b);
    proof {
        lemma_popcount_bound(a ^ b);
    }
    let mut x: u64 = a ^ b;
    let mut count: u32 = 0;
    while x != 0
        invariant
            count + popcount(x) == total,
            total <= 64,
        decreases x,
    {
        proof {
            lemma_shr1_decreases(x);
        }
        let low: u64 = x & 1;
        assert(low <= 1) by (bit_vector)
            requires
                low == x & 1,
        ;
        count = count + (low as u32);
        x = x >> 1;
    }
    count
}

/// A word whose bits at position `k` and above are all clear has at most `k` one bits.
pub proof fn lemma_popcount_below(x: u64, k: u64)
    requires
        k <= 64,
        k < 64 ==> (x >> k) == 0,
    ensures
        popcount(x) <= k,
    decreases x,
{
    if x != 0 {
        lemma_shr1_decreases(x);
        if k == 0 {
            assert(x >> 0u64 == x) by (bit_vector);
        } else {
            let k1: u64 = (k - 1) as u64;
            assert(1 <= k <= 64 && (k < 64 ==> (x >> k) == 0) && k1 == k - 1 ==> ((x >> 1u64) >> k1)
                == 0) by (bit_vector);
            lemma_popcount_below(x >> 1, k1);
            assert((x & 1) <= 1) by (bit_vector);
        }
    }
}

/// Every word has at most 64 one bits.
pub proof fn lemma_popcount_bound(x: u64)
    ensures
        popcount(x) <= 64,
{
    lemma_popcount_below(x, 64);
}


/// `popcount` peels off the lowest bit.
pub proof fn lemma_popcount_unfold(x: u64)
    ensures
        popcount(x) == (x & 1) as nat + popcount(x >> 1),
{
    if x == 0 {
        assert(0u64 >> 1u64 == 0u64 && 0u64 & 1u64 == 0u64) by (bit_vector);
    }
}

/// A word has no one bits exactly when it is zero.
pub proof fn lemma_popcount_zero(x: u64)
    ensures
        popcount(x) == 0 <==> x == 0,
    decreases x,
{
    if x != 0 {
        lemma_shr1_decreases(x);
        assert(x != 0 && (x & 1) == 0 ==> (x >> 1) != 0) by (bit_vector);
        if (x & 1) == 0 {
            lemma_popcount_zero(x >> 1);
        }
    }
}

/// The one bits of `x ^ y` are among the one bits of `x` and of `y`.
pub proof fn lemma_popcount_xor_le(x: u64, y: u64)
    ensures
        popcount(x ^ y) <= popcount(x) + popcount(y),
    decreases x + y,
{
    if x != 0 || y != 0 {
        lemma_popcount_unfold(x);
        lemma_popcount_unfold(y);
        lemma_popcount_unfold(x ^ y);
        assert((x != 0 || y != 0) ==> (x >> 1) + (y >> 1) < x + y) by (bit_vector);
        assert((x ^ y) >> 1 == (x >> 1) ^ (y >> 1)) by (bit_vector);
        assert(((x ^ y) & 1) <= (x & 1) + (y & 1)) by (bit_vector);
        lemma_popcount_xor_le(x >> 1, y >> 1);
    } else {
        assert(x == 0 && y == 0 ==> x ^ y == 0) by (bit_vector);
    }
}

/// Law: the distance between two hashes does not depend on their order.
pub proof fn lemma_hamming_symmetric(a: u64, b: u64)
    ensures
        hamming(a, b) == hamming(b, a),
{
    assert(a ^ b == b ^ a) by (bit_vector);
}

/// Law: two hashes are at distance zero exactly when they are equal.
pub proof fn lemma_hamming_zero_iff_equal(a: u64, b: u64)
    ensures
        hamming(a, b) == 0 <==> a == b,
{
    lemma_popcount_zero(a ^ b);
    assert(a ^ b == 0 <==> a == b) by (bit_vector);
}

/// Law: the distance lies between 0 and 64.
pub proof fn lemma_hamming_at_most_64(a: u64, b: u64)
    ensures
        hamming(a, b) <= 64,
{
    lemma_popcount_bound(a ^ b);
}

/// Law: the distance obeys the triangle inequality, so it is a metric on hashes.
pub proof fn lemma_hamming_triangle(a: u64, b: u64, c: u64)
    ensures
        hamming(a, c) <= hamming(a, b) + hamming(b, c),
{
    assert(a ^ c == (a ^ b) ^ (b ^ c)) by (bit_vector);
    lemma_popcount_xor_le(a ^ b, b ^ c);
}

/// Byte `i` of a hash, reading past its end as zero.
pub open spec fn hash_byte(bytes: Seq<u8>, i: int) -> u8 {
    if 0 <= i < bytes.len() {
        bytes[i]
    } else {
        0
    }
}

/// The first `n` hash bytes read as a big-endian number.
pub open spec fn be_value(bytes: Seq<u8>, n: nat) -> nat
    decreases n,
{
    if n == 0 {
        0
    } else {
        be_value(bytes, (n - 1) as nat) * 256 + hash_byte(bytes, n - 1) as nat
    }
}

/// `256^n`.
pub open spec fn pow256(n: nat) -> nat
    decreases n,
{
    if n == 0 {
        1
    } else {
        256 * pow256((n - 1) as nat)
    }
}

/// The 64-bit word of a hash: its first eight bytes, big-endian, missing
/// bytes counting as zero.
pub open spec fn packed_hash(bytes: Seq<u8>) -> u64 {
    be_value(bytes, 8) as u64
}

proof fn lemma_be_value_bound(bytes: Seq<u8>, n: nat)
    ensures
        be_value(bytes, n) < pow256(n),
    decreases n,
{
    if n > 0 {
        let m: nat = (n - 1) as nat;
        lemma_be_value_bound(bytes, m);
        let a = be_value(bytes, m);
        let p = pow256(m);
        let b = hash_byte(bytes, n - 1) as nat;
        assert(a * 256 + b < 256 * p) by (nonlinear_arith)
            requires
                a < p,
                b < 256,
        ;
    }
}

/// Pack hash bytes big-endian into a `u64`: byte 0 becomes the most
/// significant byte, and only the first eight bytes count.
pub fn pack_hash_bytes(bytes: &[u8]) -> (word: u64)
    ensures
        word == packed_hash(bytes@),
        word as nat == be_value(bytes@, 8),
{
    proof {
        lemma_be_value_bound(bytes@, 8);
        lemma_pow256_values();
    }
    let mut word: u64 = 0;
    let mut i: usize = 0;
    while i < 8
        invariant
            i <= 8,
            word as nat == be_value(bytes@, i as nat),
        decreases 8 - i,
    {
        proof {
            lemma_be_value_bound(bytes@, i as nat);
            lemma_pow256_values();
            lemma_pow256_monotone(i as nat, 7);
        }
        let byte: u8 = if i < bytes.len() {
            bytes[i]
        } else {
            0
        };
        word = word * 256 + byte as u64;
        i = i + 1;
    }
    word
}

proof fn lemma_pow256_values()
    ensures
        pow256(7) == 0x1_0000_0000_0000_00,
        pow256(8) == 0x1_0000_0000_0000_0000,
{
    reveal_with_fuel(pow256, 9);
}

proof fn lemma_pow256_monotone(a: nat, b: nat)
    requires
        a <= b,
    ensures
        pow256(a) <= pow256(b),
    decreases b,
{
    if a < b {
        lemma_pow256_monotone(a, (b - 1) as nat);
    }
}

proof fn lemma_be_byte(bytes: Seq<u8>, n: nat, i: int)
    requires
        1 <= n <= 8,
        0 <= i < n,
    ensures
        ((be_value(bytes, n) as u64) >> ((8 * (n - 1 - i)) as u64)) & 0xff == hash_byte(bytes, i) as u64,
    decreases n,
{
    let m: nat = (n - 1) as nat;
    lemma_be_value_bound(bytes, m);
    lemma_be_value_bound(bytes, n);
    lemma_pow256_monotone(m, 7);
    lemma_pow256_monotone(n, 8);
    lemma_pow256_values();
    let x: u64 = be_value(bytes, m) as u64;
    let c: u64 = hash_byte(bytes, n - 1) as u64;
    assert(be_value(bytes, n) as u64 == x * 256 + c);
    let w: u64 = (x * 256 + c) as u64;
    if i == n - 1 {
        assert((w >> 0u64) & 0xff == c) by (bit_vector)
            requires
                x < 0x100_0000_0000_0000u64,
                c < 256,
                w == x * 256 + c,
        ;
    } else {
        let s: u64 = (8 * (n - 1 - i)) as u64;
        let t: u64 = (8 * (m - 1 - i)) as u64;
        assert(w >> s == x >> t) by (bit_vector)
            requires
                x < 0x100_0000_0000_0000u64,
                c < 256,
                w == x * 256 + c,
                8 <= s <= 56,
                t == s - 8,
        ;
        lemma_be_byte(bytes, m, i);
    }
}

/// Law: byte `i` of a hash (`i < 8`) sits in bits `8 * (7 - i)` to
/// `8 * (7 - i) + 7` of its packed word — byte 0 is the most significant —
/// and missing bytes read as zero; a word has no bits besides these eight bytes.
pub proof fn lemma_packed_byte_positions(bytes: Seq<u8>, i: int)
    requires
        0 <= i < 8,
    ensures
        (packed_hash(bytes) >> ((8 * (7 - i)) as u64)) & 0xff == hash_byte(bytes, i) as u64,
{
    lemma_be_byte(bytes, 8, i);
}

/// The one bits among the lowest `k` bits of `z`.
pub open spec fn low_bit_count(z: u64, k: nat) -> nat
    decreases k,
{
    if k == 0 {
        0
    } else {
        low_bit_count(z, (k - 1) as nat) + ((z >> ((k - 1) as u64)) & 1) as nat
    }
}

proof fn lemma_popcount_split(z: u64, k: nat)
    requires
        k < 64,
    ensures
        popcount(z) == low_bit_count(z, k) + popcount(z >> (k as u64)),
    decreases k,
{
    if k == 0 {
        assert(z >> 0u64 == z) by (bit_vector);
    } else {
        let j: u64 = (k - 1) as u64;
        lemma_popcount_split(z, (k - 1) as nat);
        lemma_popcount_unfold(z >> j);
        assert(j < 63 ==> (z >> j) >> 1u64 == z >> (j + 1)) by (bit_vector);
    }
}

proof fn lemma_low_bit_count_low_byte(z: u64, k: nat)
    requires
        k <= 8,
    ensures
        low_bit_count(z & 0xff, k) == low_bit_count(z, k),
    decreases k,
{
    if k > 0 {
        let j: u64 = (k - 1) as u64;
        lemma_low_bit_count_low_byte(z, (k - 1) as nat);
        assert(j < 8 ==> ((z & 0xff) >> j) & 1 == (z >> j) & 1) by (bit_vector);
    }
}

/// The one bits of a word are those of its low byte plus those of the rest.
proof fn lemma_popcount_low_byte(z: u64)
    ensures
        popcount(z) == popcount(z & 0xff) + popcount(z >> 8),
{
    lemma_popcount_split(z, 8);
    lemma_popcount_split(z & 0xff, 8);
    lemma_low_bit_count_low_byte(z, 8);
    assert((z & 0xff) >> 8u64 == 0) by (bit_vector);
}

/// The bitwise distance between two hashes' first `n` bytes, byte by byte.
pub open spec fn byte_distance(x: Seq<u8>, y: Seq<u8>, n: nat) -> nat
    decreases n,
{
    if n == 0 {
        0
    } else {
        byte_distance(x, y, (n - 1) as nat) + popcount((hash_byte(x, n - 1) ^ hash_byte(y, n - 1)) as u64)
    }
}

proof fn lemma_prefix_distance(x: Seq<u8>, y: Seq<u8>, n: nat)
    requires
        n <= 8,
    ensures
        popcount((be_value(x, n) as u64) ^ (be_value(y, n) as u64)) == byte_distance(x, y, n),
    decreases n,
{
    if n == 0 {
        assert(0u64 ^ 0u64 == 0u64) by (bit_vector);
    } else {
        let m: nat = (n - 1) as nat;
        lemma_prefix_distance(x, y, m);
        lemma_be_value_bound(x, m);
        lemma_be_value_bound(y, m);
        lemma_pow256_monotone(m, 7);
        lemma_pow256_values();
        let a: u64 = be_value(x, m) as u64;
        let b: u64 = be_value(y, m) as u64;
        let c: u64 = hash_byte(x, n - 1) as u64;
        let d: u64 = hash_byte(y, n - 1) as u64;
        let z: u64 = ((a * 256 + c) as u64) ^ ((b * 256 + d) as u64);
        assert(z & 0xff == c ^ d && z >> 8 == a ^ b) by (bit_vector)
            requires
                a < 0x1_0000_0000_0000_00,
                b < 0x1_0000_0000_0000_00,
                c < 256,
                d < 256,
                z == ((a * 256 + c) as u64) ^ ((b * 256 + d) as u64),
        ;
        lemma_popcount_low_byte(z);
        let hx: u8 = hash_byte(x, n - 1);
        let hy: u8 = hash_byte(y, n - 1);
        assert((hx ^ hy) as u64 == c ^ d) by (bit_vector)
            requires
                c == hx as u64,
                d == hy as u64,
        ;
    }
}

/// Law: Hamming distance over the packed integers equals the bitwise distance
/// over the hash bytes they were packed from (the first eight of each).
pub proof fn lemma_packed_distance_is_bitwise(x: Seq<u8>, y: Seq<u8>)
    ensures
        hamming(packed_hash(x), packed_hash(y)) == byte_distance(x, y, 8),
{
    lemma_prefix_distance(x, y, 8);
}


/// Which perceptual-hash algorithm to compute.
#[derive(Debug, Clone, Copy, PartialEq, Eq, Structural)]
pub enum HashKind {
    /// Average hash.
    Average,
    /// Difference (gradient) hash.
    Difference,
    /// DCT-based perceptual hash.
    Perceptual,
}

/// The bit-generation algorithms of the hasher that the library uses.
#[derive(Debug, Clone, Copy, PartialEq, Eq, Structural)]
pub enum HashAlgorithm {
    /// Compare each pixel of the reduced image against the mean.
    Mean,
    /// Compare horizontally adjacent pixels.
    Gradient,
    /// Compare horizontally and vertically adjacent pixels.
    DoubleGradient,
}

/// How a hasher is configured: hash width and height in cells, the bit
/// algorithm, and whether the image is DCT-preprocessed first.
#[derive(Debug, Clone, Copy, PartialEq, Eq, Structural)]
pub struct HashSettings {
    pub width: u32,
    pub height: u32,
    pub algorithm: HashAlgorithm,
    pub dct: bool,
}

/// The hasher settings for each kind of hash: always an 8×8 (64-bit) hash;
/// mean for the average hash, gradient for the difference hash, and double
/// gradient over DCT-preprocessed pixels for the perceptual hash.
pub open spec fn settings_for(kind: HashKind) -> HashSettings {
    HashSettings {
        width: 8,
        height: 8,
        algorithm: match kind {
            HashKind::Average => HashAlgorithm::Mean,
            HashKind::Difference => HashAlgorithm::Gradient,
            HashKind::Perceptual => HashAlgorithm::DoubleGradient,
        },
        dct: kind == HashKind::Perceptual,
    }
}

/// The hasher settings for `kind`.
pub fn hash_settings(kind: HashKind) -> (settings: HashSettings)
    ensures
        settings == settings_for(kind),
        settings.width == 8 && settings.height == 8,
        settings.dct <==> kind == HashKind::Perceptual,
{
    let algorithm = match kind {
        HashKind::Average => HashAlgorithm::Mean,
        HashKind::Difference => HashAlgorithm::Gradient,
        HashKind::Perceptual => HashAlgorithm::DoubleGradient,
    };
    let dct = match kind {
        HashKind::Perceptual => true,
        _ => false,
    };
    HashSettings { width: 8, height: 8, algorithm, dct }
}

/// Law: every kind of hash is computed on an 8×8 grid, so each hash has
/// 64 bits (one word); only the perceptual hash is DCT-preprocessed, and the
/// three kinds use three different bit algorithms (average: mean,
/// difference: gradient, perceptual: double gradient).
pub proof fn lemma_hash_settings_are_8x8(kind: HashKind)
    ensures
        settings_for(kind).width == 8,
        settings_for(kind).height == 8,
        settings_for(kind).width * settings_for(kind).height == 64,
        settings_for(kind).dct <==> kind == HashKind::Perceptual,
        kind == HashKind::Average ==> settings_for(kind).algorithm == HashAlgorithm::Mean,
        kind == HashKind::Difference ==> settings_for(kind).algorithm == HashAlgorithm::Gradient,
        kind == HashKind::Perceptual ==> settings_for(kind).algorithm == HashAlgorithm::DoubleGradient,
{
}

} // verus!
