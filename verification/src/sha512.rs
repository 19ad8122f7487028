//! SHA-512, for the challenge of a signature.
use crate::bytes::le64;
use vstd::prelude::*;

verus! {

/// The eight working words.
#[derive(Clone, Copy, Debug)]
pub struct State {
    pub a: u64,
    pub b: u64,
    pub c: u64,
    pub d: u64,
    pub e: u64,
    pub f: u64,
    pub g: u64,
    pub h: u64,
}

/// The round constants: the first 64 bits of the fractional parts of the cube
/// roots of the first eighty primes.
#[verifier::opaque]
pub open spec fn round_constants() -> Seq<u64> {
    seq![
        0x428a2f98d728ae22, 0x7137449123ef65cd, 0xb5c0fbcfec4d3b2f, 0xe9b5dba58189dbbc,
        0x3956c25bf348b538, 0x59f111f1b605d019, 0x923f82a4af194f9b, 0xab1c5ed5da6d8118,
        0xd807aa98a3030242, 0x12835b0145706fbe, 0x243185be4ee4b28c, 0x550c7dc3d5ffb4e2,
        0x72be5d74f27b896f, 0x80deb1fe3b1696b1, 0x9bdc06a725c71235, 0xc19bf174cf692694,
        0xe49b69c19ef14ad2, 0xefbe4786384f25e3, 0x0fc19dc68b8cd5b5, 0x240ca1cc77ac9c65,
        0x2de92c6f592b0275, 0x4a7484aa6ea6e483, 0x5cb0a9dcbd41fbd4, 0x76f988da831153b5,
        0x983e5152ee66dfab, 0xa831c66d2db43210, 0xb00327c898fb213f, 0xbf597fc7beef0ee4,
        0xc6e00bf33da88fc2, 0xd5a79147930aa725, 0x06ca6351e003826f, 0x142929670a0e6e70,
        0x27b70a8546d22ffc, 0x2e1b21385c26c926, 0x4d2c6dfc5ac42aed, 0x53380d139d95b3df,
        0x650a73548baf63de, 0x766a0abb3c77b2a8, 0x81c2c92e47edaee6, 0x92722c851482353b,
        0xa2bfe8a14cf10364, 0xa81a664bbc423001, 0xc24b8b70d0f89791, 0xc76c51a30654be30,
        0xd192e819d6ef5218, 0xd69906245565a910, 0xf40e35855771202a, 0x106aa07032bbd1b8,
        0x19a4c116b8d2d0c8, 0x1e376c085141ab53, 0x2748774cdf8eeb99, 0x34b0bcb5e19b48a8,
        0x391c0cb3c5c95a63, 0x4ed8aa4ae3418acb, 0x5b9cca4f7763e373, 0x682e6ff3d6b2b8a3,
        0x748f82ee5defb2fc, 0x78a5636f43172f60, 0x84c87814a1f0ab72, 0x8cc702081a6439ec,
        0x90befffa23631e28, 0xa4506cebde82bde9, 0xbef9a3f7b2c67915, 0xc67178f2e372532b,
        0xca273eceea26619c, 0xd186b8c721c0c207, 0xeada7dd6cde0eb1e, 0xf57d4f7fee6ed178,
        0x06f067aa72176fba, 0x0a637dc5a2c898a6, 0x113f9804bef90dae, 0x1b710b35131c471b,
        0x28db77f523047d84, 0x32caab7b40c72493, 0x3c9ebe0a15c9bebc, 0x431d67c49c100d4c,
        0x4cc5d4becb3e42b6, 0x597f299cfc657e2a, 0x5fcb6fab3ad6faec, 0x6c44198c4a475817,
    ]
}

fn constants() -> (r: [u64; 80])
    ensures
        r@ == round_constants(),
{
    let r: [u64; 80] = [
        0x428a2f98d728ae22, 0x7137449123ef65cd, 0xb5c0fbcfec4d3b2f, 0xe9b5dba58189dbbc,
        0x3956c25bf348b538, 0x59f111f1b605d019, 0x923f82a4af194f9b, 0xab1c5ed5da6d8118,
        0xd807aa98a3030242, 0x12835b0145706fbe, 0x243185be4ee4b28c, 0x550c7dc3d5ffb4e2,
        0x72be5d74f27b896f, 0x80deb1fe3b1696b1, 0x9bdc06a725c71235, 0xc19bf174cf692694,
        0xe49b69c19ef14ad2, 0xefbe4786384f25e3, 0x0fc19dc68b8cd5b5, 0x240ca1cc77ac9c65,
        0x2de92c6f592b0275, 0x4a7484aa6ea6e483, 0x5cb0a9dcbd41fbd4, 0x76f988da831153b5,
        0x983e5152ee66dfab, 0xa831c66d2db43210, 0xb00327c898fb213f, 0xbf597fc7beef0ee4,
        0xc6e00bf33da88fc2, 0xd5a79147930aa725, 0x06ca6351e003826f, 0x142929670a0e6e70,
        0x27b70a8546d22ffc, 0x2e1b21385c26c926, 0x4d2c6dfc5ac42aed, 0x53380d139d95b3df,
        0x650a73548baf63de, 0x766a0abb3c77b2a8, 0x81c2c92e47edaee6, 0x92722c851482353b,
        0xa2bfe8a14cf10364, 0xa81a664bbc423001, 0xc24b8b70d0f89791, 0xc76c51a30654be30,
        0xd192e819d6ef5218, 0xd69906245565a910, 0xf40e35855771202a, 0x106aa07032bbd1b8,
        0x19a4c116b8d2d0c8, 0x1e376c085141ab53, 0x2748774cdf8eeb99, 0x34b0bcb5e19b48a8,
        0x391c0cb3c5c95a63, 0x4ed8aa4ae3418acb, 0x5b9cca4f7763e373, 0x682e6ff3d6b2b8a3,
        0x748f82ee5defb2fc, 0x78a5636f43172f60, 0x84c87814a1f0ab72, 0x8cc702081a6439ec,
        0x90befffa23631e28, 0xa4506cebde82bde9, 0xbef9a3f7b2c67915, 0xc67178f2e372532b,
        0xca273eceea26619c, 0xd186b8c721c0c207, 0xeada7dd6cde0eb1e, 0xf57d4f7fee6ed178,
        0x06f067aa72176fba, 0x0a637dc5a2c898a6, 0x113f9804bef90dae, 0x1b710b35131c471b,
        0x28db77f523047d84, 0x32caab7b40c72493, 0x3c9ebe0a15c9bebc, 0x431d67c49c100d4c,
        0x4cc5d4becb3e42b6, 0x597f299cfc657e2a, 0x5fcb6fab3ad6faec, 0x6c44198c4a475817,
    ];
    proof {
        reveal(round_constants);
        assert(r@ =~= round_constants());
    }
    r
}

/// The initial state: the first 64 bits of the fractional parts of the square
/// roots of the first eight primes.
pub open spec fn initial_state() -> State {
    State {
        a: 0x6a09e667f3bcc908,
        b: 0xbb67ae8584caa73b,
        c: 0x3c6ef372fe94f82b,
        d: 0xa54ff53a5f1d36f1,
        e: 0x510e527fade682d1,
        f: 0x9b05688c2b3e6c1f,
        g: 0x1f83d9abfb41bd6b,
        h: 0x5be0cd19137e2179,
    }
}

/// Rotation to the right.
pub open spec fn rotr(x: u64, n: u64, m: u64) -> u64 {
    (x >> n) | (x << m)
}

fn rotate(x: u64, n: u64, m: u64) -> (r: u64)
    requires
        n < 64,
        m < 64,
    ensures
        r == rotr(x, n, m),
{
    (x >> n) | (x << m)
}

/// The sum of four words, and of five, modulo `2^64`.
pub open spec fn sum4(a: u64, b: u64, c: u64, d: u64) -> u64 {
    a.wrapping_add(b).wrapping_add(c).wrapping_add(d)
}

pub open spec fn sum5(a: u64, b: u64, c: u64, d: u64, e: u64) -> u64 {
    sum4(a, b, c, d).wrapping_add(e)
}

pub open spec fn big_sigma0(x: u64) -> u64 {
    rotr(x, 28, 36) ^ rotr(x, 34, 30) ^ rotr(x, 39, 25)
}

pub open spec fn big_sigma1(x: u64) -> u64 {
    rotr(x, 14, 50) ^ rotr(x, 18, 46) ^ rotr(x, 41, 23)
}

pub open spec fn small_sigma0(x: u64) -> u64 {
    rotr(x, 1, 63) ^ rotr(x, 8, 56) ^ (x >> 7)
}

pub open spec fn small_sigma1(x: u64) -> u64 {
    rotr(x, 19, 45) ^ rotr(x, 61, 3) ^ (x >> 6)
}

pub open spec fn choice(x: u64, y: u64, z: u64) -> u64 {
    (x & y) ^ (!x & z)
}

pub open spec fn majority(x: u64, y: u64, z: u64) -> u64 {
    (x & y) ^ (x & z) ^ (y & z)
}

/// One round, with its constant and its word of the message schedule.
pub open spec fn round_of(s: State, k: u64, w: u64) -> State {
    let t1 = sum5(s.h, big_sigma1(s.e), choice(s.e, s.f, s.g), k, w);
    let t2 = big_sigma0(s.a).wrapping_add(majority(s.a, s.b, s.c));
    State {
        a: t1.wrapping_add(t2),
        b: s.a,
        c: s.b,
        d: s.c,
        e: s.d.wrapping_add(t1),
        f: s.e,
        g: s.f,
        h: s.g,
    }
}

fn round(s: &State, k: u64, w: u64) -> (r: State)
    ensures
        r == round_of(*s, k, w),
{
    let s1: u64 = rotate(s.e, 14, 50) ^ rotate(s.e, 18, 46) ^ rotate(s.e, 41, 23);
    let ch: u64 = (s.e & s.f) ^ (!s.e & s.g);
    let t1: u64 = s.h.wrapping_add(s1).wrapping_add(ch).wrapping_add(k).wrapping_add(w);
    let s0: u64 = rotate(s.a, 28, 36) ^ rotate(s.a, 34, 30) ^ rotate(s.a, 39, 25);
    let maj: u64 = (s.a & s.b) ^ (s.a & s.c) ^ (s.b & s.c);
    let t2: u64 = s0.wrapping_add(maj);
    State {
        a: t1.wrapping_add(t2),
        b: s.a,
        c: s.b,
        d: s.c,
        e: s.d.wrapping_add(t1),
        f: s.e,
        g: s.f,
        h: s.g,
    }
}

/// The big-endian word at an offset.
pub open spec fn be64(b: Seq<u8>, i: int) -> u64 {
    (b[i + 7] + 0x100 * b[i + 6] + 0x1_0000 * b[i + 5] + 0x100_0000 * b[i + 4] + 0x1_0000_0000 * b[i
        + 3] + 0x100_0000_0000 * b[i + 2] + 0x1_0000_0000_0000 * b[i + 1] + 0x100_0000_0000_0000
        * b[i]) as u64
}

/// The message schedule of a block.
pub open spec fn schedule(block: Seq<u8>, t: int) -> u64
    decreases t,
{
    if t < 16 {
        be64(block, 8 * t)
    } else {
        sum4(
            small_sigma1(schedule(block, t - 2)),
            schedule(block, t - 7),
            small_sigma0(schedule(block, t - 15)),
            schedule(block, t - 16),
        )
    }
}

/// The state after some rounds.
pub open spec fn rounds(s: State, block: Seq<u8>, t: int) -> State
    decreases t,
{
    if t <= 0 {
        s
    } else {
        round_of(rounds(s, block, t - 1), round_constants()[t - 1], schedule(block, t - 1))
    }
}

/// The state after a block.
pub open spec fn compressed(s: State, block: Seq<u8>) -> State {
    let r = rounds(s, block, 80);
    State {
        a: s.a.wrapping_add(r.a),
        b: s.b.wrapping_add(r.b),
        c: s.c.wrapping_add(r.c),
        d: s.d.wrapping_add(r.d),
        e: s.e.wrapping_add(r.e),
        f: s.f.wrapping_add(r.f),
        g: s.g.wrapping_add(r.g),
        h: s.h.wrapping_add(r.h),
    }
}

fn compress(s: &State, block: &[u8; 128], k: &[u64; 80]) -> (r: State)
    requires
        k@ == round_constants(),
    ensures
        r == compressed(*s, block@),
{
    let mut w: [u64; 80] = [0; 80];
    let mut i: usize = 0;
    while i < 16
        invariant
            i <= 16,
            forall|j: int| 0 <= j < i ==> #[trigger] w@[j] == schedule(block@, j),
        decreases 16 - i,
    {
        let o: usize = 8 * i;
        w[i] = block[o + 7] as u64 + 0x100 * (block[o + 6] as u64) + 0x1_0000 * (block[o + 5] as u64)
            + 0x100_0000 * (block[o + 4] as u64) + 0x1_0000_0000 * (block[o + 3] as u64)
            + 0x100_0000_0000 * (block[o + 2] as u64) + 0x1_0000_0000_0000 * (block[o + 1] as u64)
            + 0x100_0000_0000_0000 * (block[o] as u64);
        i += 1;
    }
    while i < 80
        invariant
            16 <= i <= 80,
            forall|j: int| 0 <= j < i ==> #[trigger] w@[j] == schedule(block@, j),
        decreases 80 - i,
    {
        let x: u64 = w[i - 2];
        let y: u64 = w[i - 15];
        let s1: u64 = rotate(x, 19, 45) ^ rotate(x, 61, 3) ^ (x >> 6);
        let s0: u64 = rotate(y, 1, 63) ^ rotate(y, 8, 56) ^ (y >> 7);
        w[i] = s1.wrapping_add(w[i - 7]).wrapping_add(s0).wrapping_add(w[i - 16]);
        i += 1;
    }
    let mut r = *s;
    let mut t: usize = 0;
    while t < 80
        invariant
            t <= 80,
            k@ == round_constants(),
            r == rounds(*s, block@, t as int),
            forall|j: int| 0 <= j < 80 ==> #[trigger] w@[j] == schedule(block@, j),
        decreases 80 - t,
    {
        r = round(&r, k[t], w[t]);
        t += 1;
    }
    State {
        a: s.a.wrapping_add(r.a),
        b: s.b.wrapping_add(r.b),
        c: s.c.wrapping_add(r.c),
        d: s.d.wrapping_add(r.d),
        e: s.e.wrapping_add(r.e),
        f: s.f.wrapping_add(r.f),
        g: s.g.wrapping_add(r.g),
        h: s.h.wrapping_add(r.h),
    }
}

/// A byte of an integer, the least significant one first.
pub open spec fn byte_of(v: int, k: int) -> int
    decreases k,
{
    if k <= 0 {
        v % 256
    } else {
        byte_of(v / 256, k - 1)
    }
}

/// The number of blocks that a message is padded to.
pub open spec fn block_count(n: int) -> int {
    (n + 17 + 127) / 128
}

/// A byte of the padded message: the message, a one bit, zeros, and the length
/// in bits as a big-endian integer of sixteen bytes.
pub open spec fn padded_byte(m: Seq<u8>, i: int) -> u8 {
    let last = 128 * block_count(m.len() as int) - 1;
    if i < m.len() {
        m[i]
    } else if i == m.len() {
        0x80
    } else if i <= last - 16 {
        0
    } else {
        byte_of(8 * (m.len() as int), last - i) as u8
    }
}

/// A block of the padded message.
pub open spec fn padded_block(m: Seq<u8>, j: int) -> Seq<u8> {
    Seq::new(128, |i: int| padded_byte(m, 128 * j + i))
}

/// The state after some blocks of the padded message.
pub open spec fn state_after(m: Seq<u8>, j: int) -> State
    decreases j,
{
    if j <= 0 {
        initial_state()
    } else {
        compressed(state_after(m, j - 1), padded_block(m, j - 1))
    }
}

/// The word of a state at a position.
pub open spec fn state_word(s: State, i: int) -> u64 {
    if i == 0 {
        s.a
    } else if i == 1 {
        s.b
    } else if i == 2 {
        s.c
    } else if i == 3 {
        s.d
    } else if i == 4 {
        s.e
    } else if i == 5 {
        s.f
    } else if i == 6 {
        s.g
    } else {
        s.h
    }
}

/// The SHA-512 digest of a message.
pub open spec fn digest(m: Seq<u8>) -> Seq<u8> {
    let s = state_after(m, block_count(m.len() as int));
    Seq::new(64, |i: int| byte_of(state_word(s, i / 8) as int, 7 - i % 8) as u8)
}

/// The bytes of an integer, least significant first.
fn integer_bytes(v: u128) -> (b: [u8; 16])
    ensures
        forall|k: int| 0 <= k < 16 ==> #[trigger] b@[k] == byte_of(v as int, k),
{
    let mut b: [u8; 16] = [0; 16];
    let mut rest: u128 = v;
    let mut i: usize = 0;
    while i < 16
        invariant
            i <= 16,
            forall|k: int| i <= k < 16 ==> #[trigger] byte_of(v as int, k) == byte_of(rest as int, k - i),
            forall|k: int| 0 <= k < i ==> #[trigger] b@[k] == byte_of(v as int, k),
        decreases 16 - i,
    {
        assert(byte_of(v as int, i as int) == byte_of(rest as int, 0));
        b[i] = (rest % 256) as u8;
        assert forall|k: int| i + 1 <= k < 16 implies #[trigger] byte_of(v as int, k) == byte_of(
            rest as int / 256,
            k - (i + 1),
        ) by {
            assert(byte_of(v as int, k) == byte_of(rest as int, k - i));
        }
        rest = rest / 256;
        i += 1;
    }
    b
}

/// A byte of a message in three parts.
fn part_byte(first: &[u8], second: &[u8], third: &[u8], i: u128) -> (b: u8)
    requires
        i < first@.len() + second@.len() + third@.len(),
    ensures
        b == (first@ + second@ + third@)[i as int],
{
    let n1: u128 = first.len() as u128;
    let n2: u128 = n1 + second.len() as u128;
    if i < n1 {
        first[i as usize]
    } else if i < n2 {
        second[(i - n1) as usize]
    } else {
        third[(i - n2) as usize]
    }
}

/// The bytes of a word, most significant first, read as a little-endian word.
fn swapped(w: u64) -> (r: u64)
    ensures
        r == byte_of(w as int, 7) + 0x100 * byte_of(w as int, 6) + 0x1_0000 * byte_of(w as int, 5)
            + 0x100_0000 * byte_of(w as int, 4) + 0x1_0000_0000 * byte_of(w as int, 3)
            + 0x100_0000_0000 * byte_of(w as int, 2) + 0x1_0000_0000_0000 * byte_of(w as int, 1)
            + 0x100_0000_0000_0000 * byte_of(w as int, 0),
{
    let b = integer_bytes(w as u128);
    b[7] as u64 + 0x100 * (b[6] as u64) + 0x1_0000 * (b[5] as u64) + 0x100_0000 * (b[4] as u64)
        + 0x1_0000_0000 * (b[3] as u64) + 0x100_0000_0000 * (b[2] as u64) + 0x1_0000_0000_0000 * (
    b[1] as u64) + 0x100_0000_0000_0000 * (b[0] as u64)
}

/// The digest of a message in three parts, as little-endian words.
pub fn digest_words(first: &[u8], second: &[u8], third: &[u8]) -> (r: [u64; 8])
    ensures
        forall|i: int|
            0 <= i < 8 ==> #[trigger] r@[i] == le64(digest(first@ + second@ + third@), 8 * i),
{
    let k = constants();
    let ghost m = first@ + second@ + third@;
    let n: u128 = first.len() as u128 + second.len() as u128 + third.len() as u128;
    let blocks: u128 = (n + 144) / 128;
    let last: u128 = 128 * blocks - 1;
    let length = integer_bytes(8 * n);
    let mut s = State {
        a: 0x6a09e667f3bcc908,
        b: 0xbb67ae8584caa73b,
        c: 0x3c6ef372fe94f82b,
        d: 0xa54ff53a5f1d36f1,
        e: 0x510e527fade682d1,
        f: 0x9b05688c2b3e6c1f,
        g: 0x1f83d9abfb41bd6b,
        h: 0x5be0cd19137e2179,
    };
    let mut j: u128 = 0;
    while j < blocks
        invariant
            m == first@ + second@ + third@,
            n == m.len(),
            n < 0x4_0000_0000_0000_0000,
            blocks == block_count(n as int),
            last == 128 * blocks - 1,
            j <= blocks,
            k@ == round_constants(),
            s == state_after(m, j as int),
            forall|i: int| 0 <= i < 16 ==> #[trigger] length@[i] == byte_of(8 * n, i),
        decreases blocks - j,
    {
        let mut block: [u8; 128] = [0; 128];
        let mut i: usize = 0;
        while i < 128
            invariant
                m == first@ + second@ + third@,
                n == m.len(),
                n < 0x4_0000_0000_0000_0000,
                blocks == block_count(n as int),
                last == 128 * blocks - 1,
                j < blocks,
                i <= 128,
                forall|i: int| 0 <= i < 16 ==> #[trigger] length@[i] == byte_of(8 * n, i),
                forall|l: int| 0 <= l < i ==> #[trigger] block@[l] == padded_byte(m, 128 * j + l),
            decreases 128 - i,
        {
            let at: u128 = 128 * j + i as u128;
            block[i] = if at < n {
                part_byte(first, second, third, at)
            } else if at == n {
                0x80
            } else if at + 16 <= last {
                0
            } else {
                length[(last - at) as usize]
            };
            i += 1;
        }
        assert(block@ =~= padded_block(m, j as int));
        s = compress(&s, &block, &k);
        j += 1;
    }
    let r = [
        swapped(s.a),
        swapped(s.b),
        swapped(s.c),
        swapped(s.d),
        swapped(s.e),
        swapped(s.f),
        swapped(s.g),
        swapped(s.h),
    ];
    proof {
        assert forall|i: int| 0 <= i < 8 implies #[trigger] r@[i] == le64(digest(m), 8 * i) by {
            lemma_digest_word(m, i);
        }
    }
    r
}

/// A little-endian word of the digest, from the final state.
proof fn lemma_digest_word(m: Seq<u8>, i: int)
    requires
        0 <= i < 8,
    ensures
        ({
            let w = state_word(state_after(m, block_count(m.len() as int)), i) as int;
            le64(digest(m), 8 * i) == byte_of(w, 7) + 0x100 * byte_of(w, 6) + 0x1_0000 * byte_of(w, 5)
                + 0x100_0000 * byte_of(w, 4) + 0x1_0000_0000 * byte_of(w, 3) + 0x100_0000_0000
                * byte_of(w, 2) + 0x1_0000_0000_0000 * byte_of(w, 1) + 0x100_0000_0000_0000 * byte_of(
                w,
                0,
            )
        }),
{
    let w = state_word(state_after(m, block_count(m.len() as int)), i) as int;
    assert forall|l: int| 0 <= l < 8 implies #[trigger] digest(m)[8 * i + l] == byte_of(w, 7 - l) by {
        assert((8 * i + l) / 8 == i && (8 * i + l) % 8 == l);
        lemma_byte_of(w, 7 - l);
    }
    assert(digest(m)[8 * i + 0] == byte_of(w, 7));
    assert(digest(m)[8 * i + 1] == byte_of(w, 6));
    assert(digest(m)[8 * i + 2] == byte_of(w, 5));
    assert(digest(m)[8 * i + 3] == byte_of(w, 4));
    assert(digest(m)[8 * i + 4] == byte_of(w, 3));
    assert(digest(m)[8 * i + 5] == byte_of(w, 2));
    assert(digest(m)[8 * i + 6] == byte_of(w, 1));
    assert(digest(m)[8 * i + 7] == byte_of(w, 0));
}

proof fn lemma_byte_of(v: int, k: int)
    ensures
        0 <= byte_of(v, k) < 256,
    decreases k,
{
    if k > 0 {
        lemma_byte_of(v / 256, k - 1);
    }
}

/// The challenge digests of eight lanes: each is that of the lane's encoded
/// `R`, its public key and its message, as little-endian words.
pub fn hash_ed25519_challenge_words(
    r_bytes: &[[u8; 32]; 8],
    public_keys: &[[u8; 32]; 8],
    messages: [&[u8]; 8],
) -> (r: [[u64; 8]; 8])
    ensures
        forall|lane: int, i: int|
            0 <= lane < 8 && 0 <= i < 8 ==> #[trigger] r@[lane]@[i] == le64(
                digest(r_bytes@[lane]@ + public_keys@[lane]@ + messages@[lane]@),
                8 * i,
            ),
{
    let mut r: [[u64; 8]; 8] = [[0; 8]; 8];
    let mut lane: usize = 0;
    while lane < 8
        invariant
            lane <= 8,
            forall|l: int, i: int|
                0 <= l < lane && 0 <= i < 8 ==> #[trigger] r@[l]@[i] == le64(
                    digest(r_bytes@[l]@ + public_keys@[l]@ + messages@[l]@),
                    8 * i,
                ),
        decreases 8 - lane,
    {
        r[lane] = digest_words(
            r_bytes[lane].as_slice(),
            public_keys[lane].as_slice(),
            messages[lane],
        );
        lane += 1;
    }
    r
}

} // verus!
