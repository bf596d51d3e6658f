//! The keyed byte-stream cipher that turns a position into a wall of text.

use vstd::prelude::*;

use crate::utils::{
    from_bijbase256, lemma_from_bijbase256_undoes_to, lemma_to_bijbase256_undoes_from,
    spec_from_bijbase256, spec_to_bijbase256, to_bijbase256,
};

use crate::sbox_walk::{
    affine, lemma_sbox_inverse, lemma_sbox_table, lemma_walk_advance, lemma_walk_start, sbox_entry,
    sbox_inverse, spec_rotl8, walk_inverse, walk_point, walk_step_count,
};

verus! {

/// The Rijndael substitution box.
pub const SBOX: [u8; 256] = [
    0x63, 0x7c, 0x77, 0x7b, 0xf2, 0x6b, 0x6f, 0xc5, 0x30, 0x01, 0x67, 0x2b, 0xfe, 0xd7, 0xab, 0x76,
    0xca, 0x82, 0xc9, 0x7d, 0xfa, 0x59, 0x47, 0xf0, 0xad, 0xd4, 0xa2, 0xaf, 0x9c, 0xa4, 0x72, 0xc0,
    0xb7, 0xfd, 0x93, 0x26, 0x36, 0x3f, 0xf7, 0xcc, 0x34, 0xa5, 0xe5, 0xf1, 0x71, 0xd8, 0x31, 0x15,
    0x04, 0xc7, 0x23, 0xc3, 0x18, 0x96, 0x05, 0x9a, 0x07, 0x12, 0x80, 0xe2, 0xeb, 0x27, 0xb2, 0x75,
    0x09, 0x83, 0x2c, 0x1a, 0x1b, 0x6e, 0x5a, 0xa0, 0x52, 0x3b, 0xd6, 0xb3, 0x29, 0xe3, 0x2f, 0x84,
    0x53, 0xd1, 0x00, 0xed, 0x20, 0xfc, 0xb1, 0x5b, 0x6a, 0xcb, 0xbe, 0x39, 0x4a, 0x4c, 0x58, 0xcf,
    0xd0, 0xef, 0xaa, 0xfb, 0x43, 0x4d, 0x33, 0x85, 0x45, 0xf9, 0x02, 0x7f, 0x50, 0x3c, 0x9f, 0xa8,
    0x51, 0xa3, 0x40, 0x8f, 0x92, 0x9d, 0x38, 0xf5, 0xbc, 0xb6, 0xda, 0x21, 0x10, 0xff, 0xf3, 0xd2,
    0xcd, 0x0c, 0x13, 0xec, 0x5f, 0x97, 0x44, 0x17, 0xc4, 0xa7, 0x7e, 0x3d, 0x64, 0x5d, 0x19, 0x73,
    0x60, 0x81, 0x4f, 0xdc, 0x22, 0x2a, 0x90, 0x88, 0x46, 0xee, 0xb8, 0x14, 0xde, 0x5e, 0x0b, 0xdb,
    0xe0, 0x32, 0x3a, 0x0a, 0x49, 0x06, 0x24, 0x5c, 0xc2, 0xd3, 0xac, 0x62, 0x91, 0x95, 0xe4, 0x79,
    0xe7, 0xc8, 0x37, 0x6d, 0x8d, 0xd5, 0x4e, 0xa9, 0x6c, 0x56, 0xf4, 0xea, 0x65, 0x7a, 0xae, 0x08,
    0xba, 0x78, 0x25, 0x2e, 0x1c, 0xa6, 0xb4, 0xc6, 0xe8, 0xdd, 0x74, 0x1f, 0x4b, 0xbd, 0x8b, 0x8a,
    0x70, 0x3e, 0xb5, 0x66, 0x48, 0x03, 0xf6, 0x0e, 0x61, 0x35, 0x57, 0xb9, 0x86, 0xc1, 0x1d, 0x9e,
    0xe1, 0xf8, 0x98, 0x11, 0x69, 0xd9, 0x8e, 0x94, 0x9b, 0x1e, 0x87, 0xe9, 0xce, 0x55, 0x28, 0xdf,
    0x8c, 0xa1, 0x89, 0x0d, 0xbf, 0xe6, 0x42, 0x68, 0x41, 0x99, 0x2d, 0x0f, 0xb0, 0x54, 0xbb, 0x16,
];

/// Rotation of a byte to the left by `n` bits.
fn rotl8(v: u8, n: u8) -> (r: u8)
    requires
        0 < n < 8,
    ensures
        r == spec_rotl8(v, n),
{
    (v << n) | (v >> (8 - n))
}

/// Computes the Rijndael substitution box by walking the multiplicative group of
/// GF(2^8): the point `p` runs through the powers of 3 while `q` runs through
/// their inverses, and the box receives the affine image of `q` at `p`.
pub fn rijndael_sbox() -> (res: [u8; 256])
    ensures
        res@ == SBOX@,
{
    let mut arr = [0x63u8; 256];
    let (mut p, mut q) = (1u8, 1u8);
    let ghost mut k: u8 = 0;
    proof {
        lemma_walk_start();
    }
    loop
        invariant_except_break
            k < 255,
            p == walk_point(k),
            q == walk_inverse(k),
            forall|i: int|
                0 <= i < 256 ==> #[trigger] arr@[i] == if i != 0 && walk_step_count(i as u8) <= k {
                    sbox_entry(i as u8)
                } else {
                    0x63u8
                },
        invariant
            arr@.len() == 256,
        ensures
            forall|i: int|
                0 <= i < 256 ==> #[trigger] arr@[i] == if i != 0 {
                    sbox_entry(i as u8)
                } else {
                    0x63u8
                },
        decreases 255 - k,
    {
        let ghost old_arr = arr@;
        // multiply p by 3
        assert(p >> 7u8 <= 1) by (bit_vector);
        p ^= (p << 1) ^ (p >> 7) * 0x1B;

        // divide q by 3
        q ^= q << 1;
        q ^= q << 2;
        q ^= q << 4;
        assert(q >> 7u8 <= 1) by (bit_vector);
        q ^= (q >> 7) * 0x09;

        // compute affine transformation
        let x = q ^ rotl8(q, 1) ^ rotl8(q, 2) ^ rotl8(q, 3) ^ rotl8(q, 4);

        proof {
            lemma_walk_advance(k);
            k = (k + 1) as u8;
            assert(p == walk_point(k));
            assert(q == walk_inverse(k));
            assert(x == affine(q));
            assert(sbox_entry(p) == 0x63 ^ x);
            assert(old_arr[p as int] == 0x63);
        }
        let old_entry = arr[p as usize];
        arr[p as usize] = old_entry ^ x;
        proof {
            assert forall|i: int| 0 <= i < 256 implies #[trigger] arr@[i] == if i != 0
                && walk_step_count(i as u8) <= k {
                sbox_entry(i as u8)
            } else {
                0x63u8
            } by {
                if i != p as int {
                    assert(arr@[i] == old_arr[i]);
                    if i != 0 && walk_step_count(i as u8) == k {
                        assert(i as u8 == p);
                    }
                }
            }
        }
        if p == 1 {
            break;
        }
    }
    proof {
        assert forall|i: int| 0 <= i < 256 implies arr@[i] == SBOX@[i] by {
            lemma_sbox_table(i);
        }
        assert(arr@ =~= SBOX@);
    }
    arr
}


/// Byte `j` (counted from the least significant) of a 128-bit state.
pub open spec fn byte_of(x: u128, j: u32) -> u8 {
    ((x >> ((8 * j) as u32)) & 0xff) as u8
}

/// The 16 bytes of a state, least significant first.
pub open spec fn state_bytes(x: u128) -> Seq<u8> {
    Seq::new(16, |j: int| byte_of(x, j as u32))
}

/// The state whose bytes, least significant first, are the 16 bytes of `b`.
pub open spec fn state_of_bytes(b: Seq<u8>) -> u128 {
    (b[0] as u128) | (b[1] as u128) << 8u128 | (b[2] as u128) << 16u128 | (b[3] as u128) << 24u128
        | (b[4] as u128) << 32u128 | (b[5] as u128) << 40u128 | (b[6] as u128) << 48u128 | (
    b[7] as u128) << 56u128 | (b[8] as u128) << 64u128 | (b[9] as u128) << 72u128 | (
    b[10] as u128) << 80u128 | (b[11] as u128) << 88u128 | (b[12] as u128) << 96u128 | (
    b[13] as u128) << 104u128 | (b[14] as u128) << 112u128 | (b[15] as u128) << 120u128
}

/// The two bytes that `hash` makes of `x` and `y`: their even bits and their odd
/// bits are swapped, and each mix is substituted through the box.
pub open spec fn spec_hash(x: u8, y: u8) -> (u8, u8) {
    (SBOX@[((x & 0x55) | (y & 0xaa)) as int], SBOX@[((y & 0x55) | (x & 0xaa)) as int])
}

pub fn hash(x: u8, y: u8) -> (res: (u8, u8))
    ensures
        res == spec_hash(x, y),
{
    let s1 = (x & 0x55) | (y & 0xAA);
    let s2 = (y & 0x55) | (x & 0xAA);
    (SBOX[s1 as usize], SBOX[s2 as usize])
}

/// The bytes `bytes`, each replaced by the first half of its hash with a running
/// byte that starts at `c` and becomes the second half; and the last running byte.
pub open spec fn mix(bytes: Seq<u8>, c: u8) -> (Seq<u8>, u8)
    decreases bytes.len(),
{
    if bytes.len() == 0 {
        (seq![], c)
    } else {
        let (out, c1) = mix(bytes.drop_last(), c);
        let (a, c2) = spec_hash(bytes.last(), c1);
        (out.push(a), c2)
    }
}

/// A sequence of bytes turned by one place: the last byte comes first.
pub open spec fn turn_bytes(b: Seq<u8>) -> Seq<u8> {
    seq![b.last()].add(b.drop_last())
}

/// The state after one byte has been fed to it, and the byte that comes out:
/// every byte of the state is mixed with the running byte, and the state is
/// turned left by one byte.
pub open spec fn spec_next_state(state: u128, byte: u8) -> (u128, u8) {
    let (m, c) = mix(state_bytes(state), byte);
    (state_of_bytes(turn_bytes(m)), c)
}

/// The byte a state contributes to the key stream: the XOR of its 16 bytes.
pub open spec fn spec_compress(x: u128) -> u8 {
    byte_of(x, 0) ^ byte_of(x, 1) ^ byte_of(x, 2) ^ byte_of(x, 3) ^ byte_of(x, 4) ^ byte_of(x, 5)
        ^ byte_of(x, 6) ^ byte_of(x, 7) ^ byte_of(x, 8) ^ byte_of(x, 9) ^ byte_of(x, 10) ^ byte_of(
        x,
        11,
    ) ^ byte_of(x, 12) ^ byte_of(x, 13) ^ byte_of(x, 14) ^ byte_of(x, 15)
}

proof fn lemma_mix_len(bytes: Seq<u8>, c: u8)
    ensures
        mix(bytes, c).0.len() == bytes.len(),
    decreases bytes.len(),
{
    if bytes.len() > 0 {
        lemma_mix_len(bytes.drop_last(), c);
    }
}

/// Shifting a state right by whole bytes and truncating reads one of its bytes.
proof fn lemma_byte_extract(s: u128, k: u32)
    requires
        k < 16,
    ensures
        ((s >> ((k * 8) as u32)) as u8) == byte_of(s, k),
{
    assert(((s >> ((k * 8) as u32)) as u8) == byte_of(s, k)) by (bit_vector)
        requires
            k < 16,
    ;
}

/// The 16 bytes of a state, least significant first, as an array.
fn state_to_bytes(state: u128) -> (res: [u8; 16])
    ensures
        res@ == state_bytes(state),
{
    let mut res = [0u8; 16];
    let mut j: u32 = 0;
    while j < 16
        invariant
            j <= 16,
            res@.len() == 16,
            forall|i: int| 0 <= i < j ==> #[trigger] res@[i] == byte_of(state, i as u32),
        decreases 16 - j,
    {
        proof {
            lemma_byte_extract(state, j);
        }
        res[j as usize] = (state >> (j * 8)) as u8;
        j += 1;
    }
    assert(res@ =~= state_bytes(state));
    res
}

pub fn next_state(state: u128, byte: u8) -> (res: (u128, u8))
    ensures
        res == spec_next_state(state, byte),
{
    let ghost orig = state_bytes(state);
    let ghost byte0 = byte;
    let mut bytes = state_to_bytes(state);
    let mut byte = byte;
    let mut k: usize = 0;
    while k < 16
        invariant
            k <= 16,
            orig.len() == 16,
            bytes@.len() == 16,
            mix(orig.take(k as int), byte0).1 == byte,
            mix(orig.take(k as int), byte0).0.len() == k,
            forall|j: int|
                0 <= j < 16 ==> #[trigger] bytes@[j] == if j < k {
                    mix(orig.take(k as int), byte0).0[j]
                } else {
                    orig[j]
                },
        decreases 16 - k,
    {
        proof {
            assert(orig.take(k + 1).drop_last() == orig.take(k as int));
            lemma_mix_len(orig.take(k as int), byte0);
        }
        let (a, b) = hash(bytes[k], byte);
        bytes[k] = a;
        byte = b;
        k += 1;
    }
    let m = &bytes;
    let turned = (m[15] as u128) | (m[0] as u128) << 8u128 | (m[1] as u128) << 16u128 | (
    m[2] as u128) << 24u128 | (m[3] as u128) << 32u128 | (m[4] as u128) << 40u128 | (m[5] as u128)
        << 48u128 | (m[6] as u128) << 56u128 | (m[7] as u128) << 64u128 | (m[8] as u128) << 72u128
        | (m[9] as u128) << 80u128 | (m[10] as u128) << 88u128 | (m[11] as u128) << 96u128 | (
    m[12] as u128) << 104u128 | (m[13] as u128) << 112u128 | (m[14] as u128) << 120u128;
    proof {
        let mm = mix(orig, byte0).0;
        assert(orig.take(16) == orig);
        assert(bytes@ =~= mm);
        let t = turn_bytes(mm);
        assert(t[0] == bytes@[15]);
        assert forall|i: int| 1 <= i < 16 implies t[i] == bytes@[i - 1] by {}
    }
    (turned, byte)
}

/// The substitution box is one to one.
proof fn lemma_sbox_injective(i: u8, j: u8)
    requires
        SBOX@[i as int] == SBOX@[j as int],
    ensures
        i == j,
{
    lemma_sbox_table(i as int);
    lemma_sbox_table(j as int);
    lemma_sbox_inverse();
    assert(sbox_inverse(sbox_entry(i)) == i);
    assert(sbox_inverse(sbox_entry(j)) == j);
}

/// Swapping the inputs of `hash` swaps its halves.
pub proof fn lemma_hash_swap(x: u8, y: u8)
    ensures
        spec_hash(x, y) == (spec_hash(y, x).1, spec_hash(y, x).0),
{
}

/// Hashing a byte with itself substitutes it in both halves.
pub proof fn lemma_hash_diagonal(x: u8)
    ensures
        spec_hash(x, x) == (SBOX@[x as int], SBOX@[x as int]),
{
    assert((x & 0x55) | (x & 0xaa) == x) by (bit_vector);
}

/// `hash` is one to one: its two halves give back both inputs.
pub proof fn lemma_hash_injective(x1: u8, y1: u8, x2: u8, y2: u8)
    requires
        spec_hash(x1, y1) == spec_hash(x2, y2),
    ensures
        x1 == x2,
        y1 == y2,
{
    lemma_sbox_injective((x1 & 0x55) | (y1 & 0xaa), (x2 & 0x55) | (y2 & 0xaa));
    lemma_sbox_injective((y1 & 0x55) | (x1 & 0xaa), (y2 & 0x55) | (x2 & 0xaa));
    assert(x1 == x2 && y1 == y2) by (bit_vector)
        requires
            (x1 & 0x55) | (y1 & 0xaa) == (x2 & 0x55) | (y2 & 0xaa),
            (y1 & 0x55) | (x1 & 0xaa) == (y2 & 0x55) | (x2 & 0xaa),
    ;
}

/// Mixing is one to one on strings of one length: the mixed bytes and the last
/// running byte give back the bytes and the first running byte.
proof fn lemma_mix_injective(b1: Seq<u8>, c1: u8, b2: Seq<u8>, c2: u8)
    requires
        b1.len() == b2.len(),
        mix(b1, c1) == mix(b2, c2),
    ensures
        b1 == b2,
        c1 == c2,
    decreases b1.len(),
{
    if b1.len() > 0 {
        let (o1, d1) = mix(b1.drop_last(), c1);
        let (o2, d2) = mix(b2.drop_last(), c2);
        lemma_mix_len(b1.drop_last(), c1);
        lemma_mix_len(b2.drop_last(), c2);
        let h1 = spec_hash(b1.last(), d1);
        let h2 = spec_hash(b2.last(), d2);
        assert(mix(b1, c1) == (o1.push(h1.0), h1.1));
        assert(mix(b2, c2) == (o2.push(h2.0), h2.1));
        assert(o1.push(h1.0)[o1.len() as int] == h1.0);
        assert(o2.push(h2.0)[o2.len() as int] == h2.0);
        assert(h1 == h2);
        lemma_hash_injective(b1.last(), d1, b2.last(), d2);
        assert(o1.push(spec_hash(b1.last(), d1).0).drop_last() == o1);
        assert(o2.push(spec_hash(b2.last(), d2).0).drop_last() == o2);
        lemma_mix_injective(b1.drop_last(), c1, b2.drop_last(), c2);
        assert(b1.drop_last().push(b1.last()) == b1);
        assert(b2.drop_last().push(b2.last()) == b2);
    }
}

/// Two states with the same bytes are the same state.
proof fn lemma_state_bytes_injective(a: u128, b: u128)
    requires
        state_bytes(a) == state_bytes(b),
    ensures
        a == b,
{
    assert forall|j: u32| j < 16 implies byte_of(a, j) == byte_of(b, j) by {
        assert(state_bytes(a)[j as int] == state_bytes(b)[j as int]);
        assert(state_bytes(a)[j as int] == byte_of(a, j));
        assert(state_bytes(b)[j as int] == byte_of(b, j));
    }
    assert(a == b) by (bit_vector)
        requires
            byte_of(a, 0) == byte_of(b, 0),
            byte_of(a, 1) == byte_of(b, 1),
            byte_of(a, 2) == byte_of(b, 2),
            byte_of(a, 3) == byte_of(b, 3),
            byte_of(a, 4) == byte_of(b, 4),
            byte_of(a, 5) == byte_of(b, 5),
            byte_of(a, 6) == byte_of(b, 6),
            byte_of(a, 7) == byte_of(b, 7),
            byte_of(a, 8) == byte_of(b, 8),
            byte_of(a, 9) == byte_of(b, 9),
            byte_of(a, 10) == byte_of(b, 10),
            byte_of(a, 11) == byte_of(b, 11),
            byte_of(a, 12) == byte_of(b, 12),
            byte_of(a, 13) == byte_of(b, 13),
            byte_of(a, 14) == byte_of(b, 14),
            byte_of(a, 15) == byte_of(b, 15),
    ;
}

/// The state built from 16 bytes has exactly those bytes.
proof fn lemma_state_of_bytes(b: Seq<u8>)
    requires
        b.len() == 16,
    ensures
        state_bytes(state_of_bytes(b)) == b,
{
    let (b0, b1, b2, b3, b4, b5, b6, b7) = (b[0], b[1], b[2], b[3], b[4], b[5], b[6], b[7]);
    let (b8, b9, b10, b11, b12, b13, b14, b15) = (
        b[8],
        b[9],
        b[10],
        b[11],
        b[12],
        b[13],
        b[14],
        b[15],
    );
    let x = state_of_bytes(b);
    assert({
        &&& byte_of(x, 0) == b0
        &&& byte_of(x, 1) == b1
        &&& byte_of(x, 2) == b2
        &&& byte_of(x, 3) == b3
        &&& byte_of(x, 4) == b4
        &&& byte_of(x, 5) == b5
        &&& byte_of(x, 6) == b6
        &&& byte_of(x, 7) == b7
        &&& byte_of(x, 8) == b8
        &&& byte_of(x, 9) == b9
        &&& byte_of(x, 10) == b10
        &&& byte_of(x, 11) == b11
        &&& byte_of(x, 12) == b12
        &&& byte_of(x, 13) == b13
        &&& byte_of(x, 14) == b14
        &&& byte_of(x, 15) == b15
    }) by (bit_vector)
        requires
            x == (b0 as u128) | (b1 as u128) << 8u128 | (b2 as u128) << 16u128 | (b3 as u128)
                << 24u128 | (b4 as u128) << 32u128 | (b5 as u128) << 40u128 | (b6 as u128)
                << 48u128 | (b7 as u128) << 56u128 | (b8 as u128) << 64u128 | (b9 as u128)
                << 72u128 | (b10 as u128) << 80u128 | (b11 as u128) << 88u128 | (b12 as u128)
                << 96u128 | (b13 as u128) << 104u128 | (b14 as u128) << 112u128 | (b15 as u128)
                << 120u128,
    ;
    assert(state_bytes(x) =~= b);
}

/// Feeding a byte to a state is one to one: the new state and the byte that
/// comes out give back the old state and the byte fed.
pub proof fn lemma_next_state_injective(s1: u128, b1: u8, s2: u128, b2: u8)
    requires
        spec_next_state(s1, b1) == spec_next_state(s2, b2),
    ensures
        s1 == s2,
        b1 == b2,
{
    let (m1, c1) = mix(state_bytes(s1), b1);
    let (m2, c2) = mix(state_bytes(s2), b2);
    lemma_mix_len(state_bytes(s1), b1);
    lemma_mix_len(state_bytes(s2), b2);
    let t1 = turn_bytes(m1);
    let t2 = turn_bytes(m2);
    assert(t1.len() == 16 && t2.len() == 16);
    lemma_state_of_bytes(t1);
    lemma_state_of_bytes(t2);
    assert(t1 == t2);
    assert(m1 =~= t1.drop_first().push(t1[0]));
    assert(m2 =~= t2.drop_first().push(t2[0]));
    lemma_mix_injective(state_bytes(s1), b1, state_bytes(s2), b2);
    lemma_state_bytes_injective(s1, s2);
}

/// Folds the 16 bytes of a state into one by XOR.
pub fn compress(x: u128) -> (res: u8)
    ensures
        res == spec_compress(x),
{
    let mut x = x;
    let ghost x0 = x;
    x ^= x >> 8u32;
    x ^= x >> 16u32;
    x ^= x >> 32u32;
    x ^= x >> 64u32;
    let res = x as u8;
    assert(res == spec_compress(x0)) by (bit_vector)
        requires
            res == (((((x0 ^ (x0 >> 8u32)) ^ ((x0 ^ (x0 >> 8u32)) >> 16u32)) ^ (((x0 ^ (x0
                >> 8u32)) ^ ((x0 ^ (x0 >> 8u32)) >> 16u32)) >> 32u32)) ^ ((((x0 ^ (x0 >> 8u32)) ^ ((
            x0 ^ (x0 >> 8u32)) >> 16u32)) ^ (((x0 ^ (x0 >> 8u32)) ^ ((x0 ^ (x0 >> 8u32))
                >> 16u32)) >> 32u32)) >> 64u32)) as u8),
    ;
    res
}

/// The order in which a single run visits the bytes of a message.
#[derive(Clone, Copy, Debug, PartialEq, Eq, Structural)]
pub enum Pass {
    /// From the first byte to the last.
    Forward,
    /// From the last byte to the first.
    Backward,
}

/// An encrypting run over `msg` from its first byte: each byte is XORed with the
/// key-stream byte of the current state, and the state then takes in the
/// plaintext byte. The result, and the final state.
pub open spec fn run_forward(msg: Seq<u8>, key: u128) -> (Seq<u8>, u128)
    decreases msg.len(),
{
    if msg.len() == 0 {
        (seq![], key)
    } else {
        let (out, s) = run_forward(msg.drop_last(), key);
        (out.push(msg.last() ^ spec_compress(s)), spec_next_state(s, msg.last()).0)
    }
}

/// A decrypting run over `msg` from its first byte: each byte is XORed with the
/// key-stream byte of the current state, and the state then takes in the
/// decrypted byte.
pub open spec fn unrun_forward(msg: Seq<u8>, key: u128) -> (Seq<u8>, u128)
    decreases msg.len(),
{
    if msg.len() == 0 {
        (seq![], key)
    } else {
        let (out, s) = unrun_forward(msg.drop_last(), key);
        let plain = msg.last() ^ spec_compress(s);
        (out.push(plain), spec_next_state(s, plain).0)
    }
}

/// An encrypting run over `msg` from its last byte.
pub open spec fn run_backward(msg: Seq<u8>, key: u128) -> (Seq<u8>, u128)
    decreases msg.len(),
{
    if msg.len() == 0 {
        (seq![], key)
    } else {
        let (out, s) = run_backward(msg.drop_first(), key);
        (seq![msg[0] ^ spec_compress(s)].add(out), spec_next_state(s, msg[0]).0)
    }
}

/// A decrypting run over `msg` from its last byte.
pub open spec fn unrun_backward(msg: Seq<u8>, key: u128) -> (Seq<u8>, u128)
    decreases msg.len(),
{
    if msg.len() == 0 {
        (seq![], key)
    } else {
        let (out, s) = unrun_backward(msg.drop_first(), key);
        let plain = msg[0] ^ spec_compress(s);
        (seq![plain].add(out), spec_next_state(s, plain).0)
    }
}

/// What an encrypting run in the given order makes of `msg`.
pub open spec fn spec_encrypt_run(msg: Seq<u8>, key: u128, pass: Pass) -> Seq<u8> {
    match pass {
        Pass::Forward => run_forward(msg, key).0,
        Pass::Backward => run_backward(msg, key).0,
    }
}

/// What a decrypting run in the given order makes of `msg`.
pub open spec fn spec_decrypt_run(msg: Seq<u8>, key: u128, pass: Pass) -> Seq<u8> {
    match pass {
        Pass::Forward => unrun_forward(msg, key).0,
        Pass::Backward => unrun_backward(msg, key).0,
    }
}

proof fn lemma_run_len(msg: Seq<u8>, key: u128)
    ensures
        run_forward(msg, key).0.len() == msg.len(),
        unrun_forward(msg, key).0.len() == msg.len(),
        run_backward(msg, key).0.len() == msg.len(),
        unrun_backward(msg, key).0.len() == msg.len(),
    decreases msg.len(),
{
    if msg.len() > 0 {
        lemma_run_len(msg.drop_last(), key);
        lemma_run_len(msg.drop_first(), key);
    }
}

/// Runs over `msg` in the given order, encrypting (`decrypting` false) or
/// decrypting (`decrypting` true) it in place.
#[verifier::spinoff_prover]
fn single_run(msg: &mut [u8], key: u128, pass: Pass, decrypting: bool)
    ensures
        final(msg)@ == if decrypting {
            spec_decrypt_run(old(msg)@, key, pass)
        } else {
            spec_encrypt_run(old(msg)@, key, pass)
        },
{
    let ghost orig = msg@;
    let mut state = key;
    match pass {
        Pass::Forward => {
            let mut i: usize = 0;
            while i < msg.len()
                invariant
                    i <= msg@.len() == orig.len(),
                    forall|j: int| i <= j < orig.len() ==> #[trigger] msg@[j] == orig[j],
                    decrypting ==> msg@.take(i as int) == unrun_forward(orig.take(i as int), key).0,
                    decrypting ==> state == unrun_forward(orig.take(i as int), key).1,
                    !decrypting ==> msg@.take(i as int) == run_forward(orig.take(i as int), key).0,
                    !decrypting ==> state == run_forward(orig.take(i as int), key).1,
                decreases msg@.len() - i,
            {
                proof {
                    assert(orig.take(i + 1).drop_last() == orig.take(i as int));
                    lemma_run_len(orig.take(i as int), key);
                }
                let b = msg[i];
                let c = b ^ compress(state);
                msg[i] = c;
                let fed = if decrypting { c } else { b };
                let (s, _) = next_state(state, fed);
                state = s;
                proof {
                    assert(msg@.take(i + 1) == msg@.take(i as int).push(c));
                }
                i += 1;
            }
            proof {
                assert(msg@.take(i as int) == msg@);
                assert(orig.take(i as int) == orig);
            }
        },
        Pass::Backward => {
            let mut i: usize = msg.len();
            proof {
                assert(orig.skip(i as int) == Seq::<u8>::empty());
                assert(msg@.skip(i as int) == Seq::<u8>::empty());
            }
            while i > 0
                invariant
                    i <= msg@.len() == orig.len(),
                    forall|j: int| 0 <= j < i ==> #[trigger] msg@[j] == orig[j],
                    decrypting ==> msg@.skip(i as int) == unrun_backward(orig.skip(i as int), key).0,
                    decrypting ==> state == unrun_backward(orig.skip(i as int), key).1,
                    !decrypting ==> msg@.skip(i as int) == run_backward(orig.skip(i as int), key).0,
                    !decrypting ==> state == run_backward(orig.skip(i as int), key).1,
                decreases i,
            {
                i -= 1;
                proof {
                    assert(orig.skip(i as int).drop_first() == orig.skip(i + 1));
                    assert(orig.skip(i as int)[0] == orig[i as int]);
                    lemma_run_len(orig.skip(i + 1), key);
                }
                let ghost old_msg = msg@;
                let b = msg[i];
                let c = b ^ compress(state);
                msg[i] = c;
                let fed = if decrypting { c } else { b };
                let (s, _) = next_state(state, fed);
                state = s;
                proof {
                    assert(msg@.skip(i as int) == seq![c].add(old_msg.skip(i + 1)));
                }
            }
            proof {
                assert(msg@.skip(0) == msg@);
                assert(orig.skip(0) == orig);
            }
        },
    }
}

pub fn encrypt_single_run(msg: &mut [u8], key: u128, pass: Pass)
    ensures
        final(msg)@ == spec_encrypt_run(old(msg)@, key, pass),
{
    single_run(msg, key, pass, false);
}

pub fn decrypt_single_run(msg: &mut [u8], key: u128, pass: Pass)
    ensures
        final(msg)@ == spec_decrypt_run(old(msg)@, key, pass),
{
    single_run(msg, key, pass, true);
}

/// A key: one state for the forward run and one for the backward run.
pub type Key = (u128, u128);

/// The cipher on raw bytes: a forward run with the first half of the key, then a
/// backward run with the second.
pub open spec fn spec_encrypt_internal(bytes: Seq<u8>, key: Key) -> Seq<u8> {
    run_backward(run_forward(bytes, key.0).0, key.1).0
}

/// The inverse of the cipher on raw bytes: the two runs undone in reverse order.
pub open spec fn spec_decrypt_internal(bytes: Seq<u8>, key: Key) -> Seq<u8> {
    unrun_forward(unrun_backward(bytes, key.1).0, key.0).0
}

/// Encryption of a number: its digits are read as a plain base-256 number and
/// rewritten in bijective base 256 before the cipher runs over them.
pub open spec fn spec_encrypt(num: Seq<u8>, key: Key) -> Seq<u8> {
    spec_encrypt_internal(spec_to_bijbase256(num), key)
}

/// Decryption of a number: the cipher is undone and the digits are read back
/// from bijective base 256.
pub open spec fn spec_decrypt(num: Seq<u8>, key: Key) -> Seq<u8> {
    spec_from_bijbase256(spec_decrypt_internal(num, key))
}

pub fn encrypt_internal(bytes: &mut [u8], key: Key)
    ensures
        final(bytes)@ == spec_encrypt_internal(old(bytes)@, key),
{
    let (key1, key2) = key;
    encrypt_single_run(bytes, key1, Pass::Forward);
    encrypt_single_run(bytes, key2, Pass::Backward);
}

pub fn decrypt_internal(bytes: &mut [u8], key: Key)
    ensures
        final(bytes)@ == spec_decrypt_internal(old(bytes)@, key),
{
    let (key1, key2) = key;
    decrypt_single_run(bytes, key2, Pass::Backward);
    decrypt_single_run(bytes, key1, Pass::Forward);
}

pub fn encrypt(num: &mut Vec<u8>, key: Key)
    ensures
        final(num)@ == spec_encrypt(old(num)@, key),
{
    to_bijbase256(num);
    encrypt_internal(num.as_mut_slice(), key);
}

pub fn decrypt(num: &mut Vec<u8>, key: Key)
    ensures
        final(num)@ == spec_decrypt(old(num)@, key),
{
    decrypt_internal(num.as_mut_slice(), key);
    from_bijbase256(num);
}

proof fn lemma_xor_twice(x: u8, c: u8)
    ensures
        (x ^ c) ^ c == x,
{
    assert((x ^ c) ^ c == x) by (bit_vector);
}

proof fn lemma_unrun_forward_undoes(msg: Seq<u8>, key: u128)
    ensures
        unrun_forward(run_forward(msg, key).0, key) == (msg, run_forward(msg, key).1),
    decreases msg.len(),
{
    if msg.len() > 0 {
        let m = msg.drop_last();
        let x = msg.last();
        lemma_unrun_forward_undoes(m, key);
        let (out, s) = run_forward(m, key);
        lemma_xor_twice(x, spec_compress(s));
        assert(out.push(x ^ spec_compress(s)).drop_last() == out);
        assert(m.push(x) == msg);
    }
}

proof fn lemma_run_forward_undoes(msg: Seq<u8>, key: u128)
    ensures
        run_forward(unrun_forward(msg, key).0, key) == (msg, unrun_forward(msg, key).1),
    decreases msg.len(),
{
    if msg.len() > 0 {
        let m = msg.drop_last();
        let x = msg.last();
        lemma_run_forward_undoes(m, key);
        let (out, s) = unrun_forward(m, key);
        lemma_xor_twice(x, spec_compress(s));
        assert(out.push(x ^ spec_compress(s)).drop_last() == out);
        assert(m.push(x) == msg);
    }
}

proof fn lemma_unrun_backward_undoes(msg: Seq<u8>, key: u128)
    ensures
        unrun_backward(run_backward(msg, key).0, key) == (msg, run_backward(msg, key).1),
    decreases msg.len(),
{
    if msg.len() > 0 {
        let m = msg.drop_first();
        let x = msg[0];
        lemma_unrun_backward_undoes(m, key);
        let (out, s) = run_backward(m, key);
        lemma_xor_twice(x, spec_compress(s));
        let enc = seq![x ^ spec_compress(s)].add(out);
        assert(enc.drop_first() == out);
        assert(enc[0] == x ^ spec_compress(s));
        assert(seq![x].add(m) == msg);
    }
}

proof fn lemma_run_backward_undoes(msg: Seq<u8>, key: u128)
    ensures
        run_backward(unrun_backward(msg, key).0, key) == (msg, unrun_backward(msg, key).1),
    decreases msg.len(),
{
    if msg.len() > 0 {
        let m = msg.drop_first();
        let x = msg[0];
        lemma_run_backward_undoes(m, key);
        let (out, s) = unrun_backward(m, key);
        lemma_xor_twice(x, spec_compress(s));
        let dec = seq![x ^ spec_compress(s)].add(out);
        assert(dec.drop_first() == out);
        assert(dec[0] == x ^ spec_compress(s));
        assert(seq![x].add(m) == msg);
    }
}

/// A decrypting run undoes an encrypting run in the same order with the same
/// key state, and an encrypting run undoes a decrypting one.
pub proof fn lemma_single_run_undo(msg: Seq<u8>, key: u128, pass: Pass)
    ensures
        spec_decrypt_run(spec_encrypt_run(msg, key, pass), key, pass) == msg,
        spec_encrypt_run(spec_decrypt_run(msg, key, pass), key, pass) == msg,
{
    match pass {
        Pass::Forward => {
            lemma_unrun_forward_undoes(msg, key);
            lemma_run_forward_undoes(msg, key);
        },
        Pass::Backward => {
            lemma_unrun_backward_undoes(msg, key);
            lemma_run_backward_undoes(msg, key);
        },
    }
}

/// Decrypting what was encrypted with the same key gives back the bytes, and
/// encrypting what was decrypted with the same key does too.
pub proof fn lemma_internal_decryption_inverts_encryption(bytes: Seq<u8>, key: Key)
    ensures
        spec_decrypt_internal(spec_encrypt_internal(bytes, key), key) == bytes,
        spec_encrypt_internal(spec_decrypt_internal(bytes, key), key) == bytes,
{
    lemma_unrun_forward_undoes(bytes, key.0);
    lemma_unrun_backward_undoes(run_forward(bytes, key.0).0, key.1);
    lemma_run_backward_undoes(bytes, key.1);
    lemma_run_forward_undoes(unrun_backward(bytes, key.1).0, key.0);
}

/// Encrypting a number and decrypting the result gives the number back, as long
/// as its digit string has no leading 0.
pub proof fn lemma_decryption_inverts_encryption(num: Seq<u8>, key: Key)
    requires
        num.len() == 0 || num.last() != 0,
    ensures
        spec_decrypt(spec_encrypt(num, key), key) == num,
{
    lemma_internal_decryption_inverts_encryption(spec_to_bijbase256(num), key);
    lemma_from_bijbase256_undoes_to(num);
}

/// Decrypting any digit string and encrypting the result gives it back.
pub proof fn lemma_encryption_inverts_decryption(num: Seq<u8>, key: Key)
    ensures
        spec_encrypt(spec_decrypt(num, key), key) == num,
{
    lemma_to_bijbase256_undoes_from(spec_decrypt_internal(num, key));
    lemma_internal_decryption_inverts_encryption(num, key);
}

/// Encrypting a single byte XORs it with the first key-stream byte of each key
/// half, which is the XOR of all 16 bytes of that half; decrypting does the same.
pub proof fn lemma_encrypt_one_byte(m: u8, key: Key)
    ensures
        spec_encrypt_internal(seq![m], key) == seq![m ^ spec_compress(key.0) ^ spec_compress(key.1)],
        spec_decrypt_internal(seq![m], key) == seq![m ^ spec_compress(key.1) ^ spec_compress(key.0)],
{
    let one = seq![m];
    assert(one.drop_last() =~= Seq::<u8>::empty());
    assert(one.drop_first() =~= Seq::<u8>::empty());
    assert(one.last() == m && one[0] == m);
    let e = Seq::<u8>::empty();
    assert(run_forward(e, key.0) == (e, key.0));
    assert(run_backward(e, key.1) == (e, key.1));
    assert(unrun_forward(e, key.0) == (e, key.0));
    assert(unrun_backward(e, key.1) == (e, key.1));
    let f = m ^ spec_compress(key.0);
    assert(run_forward(one, key.0).0 =~= seq![f]);
    let fs = seq![f];
    assert(fs.drop_first() =~= Seq::<u8>::empty());
    assert(fs[0] == f);
    assert(run_backward(fs, key.1).0 =~= seq![f ^ spec_compress(key.1)]);
    let g = m ^ spec_compress(key.1);
    assert(unrun_backward(one, key.1).0 =~= seq![g]);
    let gs = seq![g];
    assert(gs.drop_last() =~= Seq::<u8>::empty());
    assert(gs.last() == g);
    assert(unrun_forward(gs, key.0).0 =~= seq![g ^ spec_compress(key.0)]);
}

/// Flipping one bit of a state flips one bit of its key-stream byte.
proof fn lemma_compress_bit(k: u128, j: u32)
    requires
        j < 128,
    ensures
        spec_compress(k ^ (1u128 << j)) != spec_compress(k),
{
    assert(spec_compress(k ^ (1u128 << j)) != spec_compress(k)) by (bit_vector)
        requires
            j < 128,
    ;
}

/// Every bit of either key half matters: changing it changes the encryption of
/// every single byte.
pub proof fn lemma_every_key_bit_matters(m: u8, key: Key, j: u32)
    requires
        j < 128,
    ensures
        spec_encrypt_internal(seq![m], key) != spec_encrypt_internal(
            seq![m],
            (key.0 ^ (1u128 << j), key.1),
        ),
        spec_encrypt_internal(seq![m], key) != spec_encrypt_internal(
            seq![m],
            (key.0, key.1 ^ (1u128 << j)),
        ),
{
    let k0 = key.0 ^ (1u128 << j);
    let k1 = key.1 ^ (1u128 << j);
    lemma_encrypt_one_byte(m, key);
    lemma_encrypt_one_byte(m, (k0, key.1));
    lemma_encrypt_one_byte(m, (key.0, k1));
    lemma_compress_bit(key.0, j);
    lemma_compress_bit(key.1, j);
    let (c0, c1, d0, d1) = (spec_compress(key.0), spec_compress(key.1), spec_compress(k0), spec_compress(k1));
    assert(m ^ c0 ^ c1 != m ^ d0 ^ c1) by (bit_vector)
        requires
            c0 != d0,
    ;
    assert(m ^ c0 ^ c1 != m ^ c0 ^ d1) by (bit_vector)
        requires
            c1 != d1,
    ;
    assert(seq![m ^ c0 ^ c1][0] != seq![m ^ d0 ^ c1][0]);
    assert(seq![m ^ c0 ^ c1][0] != seq![m ^ c0 ^ d1][0]);
}

} // verus!
