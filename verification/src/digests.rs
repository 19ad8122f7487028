//! What a digest is: the padding of a message, the chain of its blocks, and the
//! constants of the rounds.
use crate::bytes::{le256, le512};
use crate::encodings::{lemma_remainder, lemma_sixty_four_bytes};
use crate::sha512::{
    be64, big_sigma0, big_sigma1, block_count, byte_of, choice, compressed, digest, initial_state,
    majority, padded_block, padded_byte, round_constants, round_of, rounds, schedule, small_sigma0,
    small_sigma1, state_after, state_word, sum4, sum5, State,
};
use crate::signature::challenge;
use vstd::prelude::*;

verus! {

/// The first eighty primes.
pub open spec fn first_primes() -> Seq<int> {
    seq![
        2, 3, 5, 7, 11, 13, 17, 19, 23, 29, 31, 37, 41, 43, 47, 53,
        59, 61, 67, 71, 73, 79, 83, 89, 97, 101, 103, 107, 109, 113, 127, 131,
        137, 139, 149, 151, 157, 163, 167, 173, 179, 181, 191, 193, 197, 199, 211, 223,
        227, 229, 233, 239, 241, 251, 257, 263, 269, 271, 277, 281, 283, 293, 307, 311,
        313, 317, 331, 337, 347, 349, 353, 359, 367, 373, 379, 383, 389, 397, 401, 409,
    ]
}

/// The second power.
pub open spec fn square(r: int) -> int {
    r * r
}

/// The third power.
pub open spec fn cube(r: int) -> int {
    r * r * r
}

/// A word is the first 64 bits of the fractional part of a square root.
pub open spec fn is_square_root_fraction(c: int, q: int) -> bool {
    exists|r: int|
        r >= 0 && r % 0x1_0000000000000000 == c && #[trigger] square(r)
            <= 0x1_00000000000000000000000000000000int * q < square(r + 1)
}

/// A word is the first 64 bits of the fractional part of a cube root.
pub open spec fn is_cube_root_fraction(c: int, q: int) -> bool {
    exists|r: int|
        r >= 0 && r % 0x1_0000000000000000 == c && #[trigger] cube(r)
            <= 0x1_000000000000000000000000000000000000000000000000int * q < cube(r + 1)
}

proof fn lemma_square_root(c: int, q: int, r: int)
    requires
        r >= 0,
        r % 0x1_0000000000000000 == c,
        r * r <= 0x1_00000000000000000000000000000000int * q,
        0x1_00000000000000000000000000000000int * q < (r + 1) * (r + 1),
    ensures
        is_square_root_fraction(c, q),
{
    assert(square(r) <= 0x1_00000000000000000000000000000000int * q);
}

proof fn lemma_cube_root(c: int, q: int, r: int)
    requires
        r >= 0,
        r % 0x1_0000000000000000 == c,
        r * r * r <= 0x1_000000000000000000000000000000000000000000000000int * q,
        0x1_000000000000000000000000000000000000000000000000int * q < (r + 1) * (r + 1) * (r + 1),
    ensures
        is_cube_root_fraction(c, q),
{
    assert(cube(r) <= 0x1_000000000000000000000000000000000000000000000000int * q);
}

/// The words that a digest starts from are the fractional parts of the square
/// roots of the first eight primes.
pub proof fn lemma_initial_state()
    ensures
        forall|i: int|
            0 <= i < 8 ==> is_square_root_fraction(
                #[trigger] state_word(initial_state(), i) as int,
                first_primes()[i],
            ),
{
    let s = initial_state();
    lemma_square_root(state_word(s, 0) as int, 2, 0x16a09e667f3bcc908int);
    lemma_square_root(state_word(s, 1) as int, 3, 0x1bb67ae8584caa73bint);
    lemma_square_root(state_word(s, 2) as int, 5, 0x23c6ef372fe94f82bint);
    lemma_square_root(state_word(s, 3) as int, 7, 0x2a54ff53a5f1d36f1int);
    lemma_square_root(state_word(s, 4) as int, 11, 0x3510e527fade682d1int);
    lemma_square_root(state_word(s, 5) as int, 13, 0x39b05688c2b3e6c1fint);
    lemma_square_root(state_word(s, 6) as int, 17, 0x41f83d9abfb41bd6bint);
    lemma_square_root(state_word(s, 7) as int, 19, 0x45be0cd19137e2179int);
}

/// The constants of the rounds are the fractional parts of the cube roots of the
/// first eighty primes.
pub proof fn lemma_round_constants()
    ensures
        round_constants().len() == 80,
        forall|i: int|
            0 <= i < 80 ==> is_cube_root_fraction(
                #[trigger] round_constants()[i] as int,
                first_primes()[i],
            ),
{
    lemma_constants_0();
    lemma_constants_20();
    lemma_constants_40();
    lemma_constants_60();
    reveal(round_constants);
}

#[verifier::rlimit(60)]
proof fn lemma_constants_0()
    ensures
        forall|i: int|
            0 <= i < 20 ==> is_cube_root_fraction(
                #[trigger] round_constants()[i] as int,
                first_primes()[i],
            ),
{
    reveal(round_constants);
    let k = round_constants();
    lemma_cube_root(k[0] as int, 2, 0x1428a2f98d728ae22int);
    lemma_cube_root(k[1] as int, 3, 0x17137449123ef65cdint);
    lemma_cube_root(k[2] as int, 5, 0x1b5c0fbcfec4d3b2fint);
    lemma_cube_root(k[3] as int, 7, 0x1e9b5dba58189dbbcint);
    lemma_cube_root(k[4] as int, 11, 0x23956c25bf348b538int);
    lemma_cube_root(k[5] as int, 13, 0x259f111f1b605d019int);
    lemma_cube_root(k[6] as int, 17, 0x2923f82a4af194f9bint);
    lemma_cube_root(k[7] as int, 19, 0x2ab1c5ed5da6d8118int);
    lemma_cube_root(k[8] as int, 23, 0x2d807aa98a3030242int);
    lemma_cube_root(k[9] as int, 29, 0x312835b0145706fbeint);
    lemma_cube_root(k[10] as int, 31, 0x3243185be4ee4b28cint);
    lemma_cube_root(k[11] as int, 37, 0x3550c7dc3d5ffb4e2int);
    lemma_cube_root(k[12] as int, 41, 0x372be5d74f27b896fint);
    lemma_cube_root(k[13] as int, 43, 0x380deb1fe3b1696b1int);
    lemma_cube_root(k[14] as int, 47, 0x39bdc06a725c71235int);
    lemma_cube_root(k[15] as int, 53, 0x3c19bf174cf692694int);
    lemma_cube_root(k[16] as int, 59, 0x3e49b69c19ef14ad2int);
    lemma_cube_root(k[17] as int, 61, 0x3efbe4786384f25e3int);
    lemma_cube_root(k[18] as int, 67, 0x40fc19dc68b8cd5b5int);
    lemma_cube_root(k[19] as int, 71, 0x4240ca1cc77ac9c65int);
}

#[verifier::rlimit(60)]
proof fn lemma_constants_20()
    ensures
        forall|i: int|
            20 <= i < 40 ==> is_cube_root_fraction(
                #[trigger] round_constants()[i] as int,
                first_primes()[i],
            ),
{
    reveal(round_constants);
    let k = round_constants();
    lemma_cube_root(k[20] as int, 73, 0x42de92c6f592b0275int);
    lemma_cube_root(k[21] as int, 79, 0x44a7484aa6ea6e483int);
    lemma_cube_root(k[22] as int, 83, 0x45cb0a9dcbd41fbd4int);
    lemma_cube_root(k[23] as int, 89, 0x476f988da831153b5int);
    lemma_cube_root(k[24] as int, 97, 0x4983e5152ee66dfabint);
    lemma_cube_root(k[25] as int, 101, 0x4a831c66d2db43210int);
    lemma_cube_root(k[26] as int, 103, 0x4b00327c898fb213fint);
    lemma_cube_root(k[27] as int, 107, 0x4bf597fc7beef0ee4int);
    lemma_cube_root(k[28] as int, 109, 0x4c6e00bf33da88fc2int);
    lemma_cube_root(k[29] as int, 113, 0x4d5a79147930aa725int);
    lemma_cube_root(k[30] as int, 127, 0x506ca6351e003826fint);
    lemma_cube_root(k[31] as int, 131, 0x5142929670a0e6e70int);
    lemma_cube_root(k[32] as int, 137, 0x527b70a8546d22ffcint);
    lemma_cube_root(k[33] as int, 139, 0x52e1b21385c26c926int);
    lemma_cube_root(k[34] as int, 149, 0x54d2c6dfc5ac42aedint);
    lemma_cube_root(k[35] as int, 151, 0x553380d139d95b3dfint);
    lemma_cube_root(k[36] as int, 157, 0x5650a73548baf63deint);
    lemma_cube_root(k[37] as int, 163, 0x5766a0abb3c77b2a8int);
    lemma_cube_root(k[38] as int, 167, 0x581c2c92e47edaee6int);
    lemma_cube_root(k[39] as int, 173, 0x592722c851482353bint);
}

#[verifier::rlimit(60)]
proof fn lemma_constants_40()
    ensures
        forall|i: int|
            40 <= i < 60 ==> is_cube_root_fraction(
                #[trigger] round_constants()[i] as int,
                first_primes()[i],
            ),
{
    reveal(round_constants);
    let k = round_constants();
    lemma_cube_root(k[40] as int, 179, 0x5a2bfe8a14cf10364int);
    lemma_cube_root(k[41] as int, 181, 0x5a81a664bbc423001int);
    lemma_cube_root(k[42] as int, 191, 0x5c24b8b70d0f89791int);
    lemma_cube_root(k[43] as int, 193, 0x5c76c51a30654be30int);
    lemma_cube_root(k[44] as int, 197, 0x5d192e819d6ef5218int);
    lemma_cube_root(k[45] as int, 199, 0x5d69906245565a910int);
    lemma_cube_root(k[46] as int, 211, 0x5f40e35855771202aint);
    lemma_cube_root(k[47] as int, 223, 0x6106aa07032bbd1b8int);
    lemma_cube_root(k[48] as int, 227, 0x619a4c116b8d2d0c8int);
    lemma_cube_root(k[49] as int, 229, 0x61e376c085141ab53int);
    lemma_cube_root(k[50] as int, 233, 0x62748774cdf8eeb99int);
    lemma_cube_root(k[51] as int, 239, 0x634b0bcb5e19b48a8int);
    lemma_cube_root(k[52] as int, 241, 0x6391c0cb3c5c95a63int);
    lemma_cube_root(k[53] as int, 251, 0x64ed8aa4ae3418acbint);
    lemma_cube_root(k[54] as int, 257, 0x65b9cca4f7763e373int);
    lemma_cube_root(k[55] as int, 263, 0x6682e6ff3d6b2b8a3int);
    lemma_cube_root(k[56] as int, 269, 0x6748f82ee5defb2fcint);
    lemma_cube_root(k[57] as int, 271, 0x678a5636f43172f60int);
    lemma_cube_root(k[58] as int, 277, 0x684c87814a1f0ab72int);
    lemma_cube_root(k[59] as int, 281, 0x68cc702081a6439ecint);
}

#[verifier::rlimit(60)]
proof fn lemma_constants_60()
    ensures
        forall|i: int|
            60 <= i < 80 ==> is_cube_root_fraction(
                #[trigger] round_constants()[i] as int,
                first_primes()[i],
            ),
{
    reveal(round_constants);
    let k = round_constants();
    lemma_cube_root(k[60] as int, 283, 0x690befffa23631e28int);
    lemma_cube_root(k[61] as int, 293, 0x6a4506cebde82bde9int);
    lemma_cube_root(k[62] as int, 307, 0x6bef9a3f7b2c67915int);
    lemma_cube_root(k[63] as int, 311, 0x6c67178f2e372532bint);
    lemma_cube_root(k[64] as int, 313, 0x6ca273eceea26619cint);
    lemma_cube_root(k[65] as int, 317, 0x6d186b8c721c0c207int);
    lemma_cube_root(k[66] as int, 331, 0x6eada7dd6cde0eb1eint);
    lemma_cube_root(k[67] as int, 337, 0x6f57d4f7fee6ed178int);
    lemma_cube_root(k[68] as int, 347, 0x706f067aa72176fbaint);
    lemma_cube_root(k[69] as int, 349, 0x70a637dc5a2c898a6int);
    lemma_cube_root(k[70] as int, 353, 0x7113f9804bef90daeint);
    lemma_cube_root(k[71] as int, 359, 0x71b710b35131c471bint);
    lemma_cube_root(k[72] as int, 367, 0x728db77f523047d84int);
    lemma_cube_root(k[73] as int, 373, 0x732caab7b40c72493int);
    lemma_cube_root(k[74] as int, 379, 0x73c9ebe0a15c9bebcint);
    lemma_cube_root(k[75] as int, 383, 0x7431d67c49c100d4cint);
    lemma_cube_root(k[76] as int, 389, 0x74cc5d4becb3e42b6int);
    lemma_cube_root(k[77] as int, 397, 0x7597f299cfc657e2aint);
    lemma_cube_root(k[78] as int, 401, 0x75fcb6fab3ad6faecint);
    lemma_cube_root(k[79] as int, 409, 0x76c44198c4a475817int);
}

/// A word of the schedule of a block: one of the words of the block, most
/// significant byte first, or the sum of four words before it, two of them mixed.
#[verifier::opaque]
pub open spec fn is_schedule_word(b: Seq<u8>, w: Seq<u64>, t: int) -> bool {
    if t < 16 {
        w[t] == 0x100000000000000 * b[8 * t] + 0x1000000000000 * b[8 * t + 1] + 0x10000000000 * b[8 * t
            + 2] + 0x100000000 * b[8 * t + 3] + 0x1000000 * b[8 * t + 4] + 0x10000 * b[8 * t + 5] + 0x100
            * b[8 * t + 6] + b[8 * t + 7]
    } else {
        let x = w[t - 2];
        let y = w[t - 15];
        w[t] == ((((x >> 19) | (x << 45)) ^ ((x >> 61) | (x << 3)) ^ (x >> 6)) + w[t - 7] + (((y >> 1) | (y
            << 63)) ^ ((y >> 8) | (y << 56)) ^ (y >> 7)) + w[t - 16]) % 0x1_0000000000000000
    }
}

/// A round: the words move up by one place, a sum comes in at the first and is
/// added to the fourth on its way to the fifth.
#[verifier::opaque]
pub open spec fn is_round(o: State, k: u64, w: u64, n: State) -> bool {
    let t1 = o.h + (((o.e >> 14) | (o.e << 50)) ^ ((o.e >> 18) | (o.e << 46)) ^ ((o.e >> 41) | (o.e
        << 23))) + ((o.e & o.f) ^ (!o.e & o.g)) + k + w;
    let t2 = (((o.a >> 28) | (o.a << 36)) ^ ((o.a >> 34) | (o.a << 30)) ^ ((o.a >> 39) | (o.a << 25)))
        + ((o.a & o.b) ^ (o.a & o.c) ^ (o.b & o.c));
    &&& n.a == (t1 + t2) % 0x1_0000000000000000
    &&& n.b == o.a
    &&& n.c == o.b
    &&& n.d == o.c
    &&& n.e == (o.d + t1) % 0x1_0000000000000000
    &&& n.f == o.e
    &&& n.g == o.f
    &&& n.h == o.g
}

/// The state after a block. Of any eighty words that are the schedule of the
/// block, and of any states that start with the given one and go on by the
/// eighty rounds, the last one is added to the given one word by word.
pub proof fn lemma_state_after_block(s: State, b: Seq<u8>, w: Seq<u64>, v: Seq<State>)
    requires
        b.len() == 128,
        w.len() == 80,
        v.len() == 81,
        forall|t: int| 0 <= t < 80 ==> #[trigger] is_schedule_word(b, w, t),
        v[0] == s,
        forall|t: int|
            1 <= t <= 80 ==> is_round(v[t - 1], round_constants()[t - 1], w[t - 1], #[trigger] v[t]),
    ensures
        compressed(s, b).a == (s.a + v[80].a) % 0x1_0000000000000000,
        compressed(s, b).b == (s.b + v[80].b) % 0x1_0000000000000000,
        compressed(s, b).c == (s.c + v[80].c) % 0x1_0000000000000000,
        compressed(s, b).d == (s.d + v[80].d) % 0x1_0000000000000000,
        compressed(s, b).e == (s.e + v[80].e) % 0x1_0000000000000000,
        compressed(s, b).f == (s.f + v[80].f) % 0x1_0000000000000000,
        compressed(s, b).g == (s.g + v[80].g) % 0x1_0000000000000000,
        compressed(s, b).h == (s.h + v[80].h) % 0x1_0000000000000000,
{
    assert forall|t: int| 0 <= t < 80 implies #[trigger] w[t] == schedule(b, t) by {
        lemma_schedule(b, w, t);
    }
    lemma_rounds(s, b, w, v, 80);
    let r = v[80];
    lemma_sum2(s.a, r.a);
    lemma_sum2(s.b, r.b);
    lemma_sum2(s.c, r.c);
    lemma_sum2(s.d, r.d);
    lemma_sum2(s.e, r.e);
    lemma_sum2(s.f, r.f);
    lemma_sum2(s.g, r.g);
    lemma_sum2(s.h, r.h);
}

/// The wrapping sum is the sum modulo `2^64`.
proof fn lemma_sum2(a: u64, b: u64)
    ensures
        a.wrapping_add(b) == (a + b) % 0x1_0000000000000000,
{
}

proof fn lemma_sum4(a: u64, b: u64, c: u64, e: u64)
    ensures
        sum4(a, b, c, e) == (a + b + c + e) % 0x1_0000000000000000,
{
    lemma_sum2(a, b);
    lemma_sum2(a.wrapping_add(b), c);
    lemma_sum2(a.wrapping_add(b).wrapping_add(c), e);
}

proof fn lemma_sum5(a: u64, b: u64, c: u64, e: u64, f: u64)
    ensures
        sum5(a, b, c, e, f) == (a + b + c + e + f) % 0x1_0000000000000000,
{
    lemma_sum4(a, b, c, e);
    lemma_sum2(sum4(a, b, c, e), f);
}

/// A word of the schedule that is a sum.
proof fn lemma_schedule_sum(b: Seq<u8>, w: Seq<u64>, t: int)
    requires
        16 <= t < 80,
        is_schedule_word(b, w, t),
    ensures
        w[t] == sum4(small_sigma1(w[t - 2]), w[t - 7], small_sigma0(w[t - 15]), w[t - 16]),
{
    reveal(is_schedule_word);
    lemma_sum4(small_sigma1(w[t - 2]), w[t - 7], small_sigma0(w[t - 15]), w[t - 16]);
}

/// A word of the schedule that is one of the block.
proof fn lemma_schedule_block(b: Seq<u8>, w: Seq<u64>, t: int)
    requires
        0 <= t < 16,
        is_schedule_word(b, w, t),
    ensures
        w[t] == be64(b, 8 * t),
{
    reveal(is_schedule_word);
}

proof fn lemma_schedule(b: Seq<u8>, w: Seq<u64>, t: int)
    requires
        0 <= t < 80,
        forall|t: int| 0 <= t < 80 ==> #[trigger] is_schedule_word(b, w, t),
    ensures
        w[t] == schedule(b, t),
    decreases t,
{
    assert(is_schedule_word(b, w, t));
    if t < 16 {
        lemma_schedule_block(b, w, t);
    } else {
        lemma_schedule_sum(b, w, t);
        lemma_schedule(b, w, t - 2);
        lemma_schedule(b, w, t - 7);
        lemma_schedule(b, w, t - 15);
        lemma_schedule(b, w, t - 16);
    }
}

proof fn lemma_rounds(s: State, b: Seq<u8>, w: Seq<u64>, v: Seq<State>, t: int)
    requires
        0 <= t <= 80,
        forall|t: int| 0 <= t < 80 ==> #[trigger] w[t] == schedule(b, t),
        v[0] == s,
        forall|t: int|
            1 <= t <= 80 ==> is_round(v[t - 1], round_constants()[t - 1], w[t - 1], #[trigger] v[t]),
    ensures
        v[t] == rounds(s, b, t),
    decreases t,
{
    if t > 0 {
        lemma_rounds(s, b, w, v, t - 1);
        assert(is_round(v[t - 1], round_constants()[t - 1], w[t - 1], v[t]));
        lemma_round(v[t - 1], round_constants()[t - 1], w[t - 1], v[t]);
        assert(w[t - 1] == schedule(b, t - 1));
    }
}

proof fn lemma_round(o: State, k: u64, w: u64, n: State)
    requires
        is_round(o, k, w, n),
    ensures
        n == round_of(o, k, w),
{
    let s1 = big_sigma1(o.e);
    let s0 = big_sigma0(o.a);
    let ch = choice(o.e, o.f, o.g);
    let maj = majority(o.a, o.b, o.c);
    assert({
        let t1 = o.h + s1 + ch + k + w;
        let t2 = s0 + maj;
        &&& n.a == (t1 + t2) % 0x1_0000000000000000
        &&& n.e == (o.d + t1) % 0x1_0000000000000000
        &&& n.b == o.a && n.c == o.b && n.d == o.c && n.f == o.e && n.g == o.f && n.h == o.g
    }) by {
        reveal(is_round);
    }
    lemma_round_sums(o, k, w, n, s1, s0, ch, maj);
}

/// The two sums of a round.
proof fn lemma_round_sums(o: State, k: u64, w: u64, n: State, s1: u64, s0: u64, ch: u64, maj: u64)
    requires
        n.a == (o.h + s1 + ch + k + w + s0 + maj) % 0x1_0000000000000000,
        n.e == (o.d + o.h + s1 + ch + k + w) % 0x1_0000000000000000,
    ensures
        n.a == sum5(o.h, s1, ch, k, w).wrapping_add(s0.wrapping_add(maj)),
        n.e == o.d.wrapping_add(sum5(o.h, s1, ch, k, w)),
{
    let t1 = sum5(o.h, s1, ch, k, w);
    lemma_sum5(o.h, s1, ch, k, w);
    let t2 = s0.wrapping_add(maj);
    lemma_sum2(s0, maj);
    lemma_sum2(t1, t2);
    lemma_sum2(o.d, t1);
    lemma_mod_sum(o.h + s1 + ch + k + w, s0 + maj, t1 as int, t2 as int);
    lemma_mod_sum(o.h + s1 + ch + k + w, o.d as int, t1 as int, o.d as int);
}

proof fn lemma_mod_sum(x: int, y: int, s: int, t: int)
    requires
        s == x % 0x1_0000000000000000,
        t == y % 0x1_0000000000000000,
    ensures
        (s + t) % 0x1_0000000000000000 == (x + y) % 0x1_0000000000000000,
{
}

/// A digest. Of any padding of the message, that is the message, the byte `0x80`,
/// fewer than 128 zeros, and the length in bits as an integer of sixteen bytes,
/// most significant byte first, so that whole blocks of 128 bytes come out, and
/// of any states that start with the initial one and go on by one block each
/// over all the blocks, the last state is the digest, most significant byte of
/// each word first.
pub proof fn lemma_digest_of_padded(
    m: Seq<u8>,
    z: nat,
    length: Seq<u8>,
    padded: Seq<u8>,
    v: Seq<State>,
)
    requires
        z < 128,
        length.len() == 16,
        0x1000000000000000000000000000000int * length[0]
            + 0x10000000000000000000000000000int * length[1]
            + 0x100000000000000000000000000int * length[2]
            + 0x1000000000000000000000000int * length[3] + 0x10000000000000000000000int * length[4]
            + 0x100000000000000000000int * length[5] + 0x1000000000000000000int * length[6]
            + 0x10000000000000000int * length[7] + 0x100000000000000 * length[8]
            + 0x1000000000000 * length[9] + 0x10000000000 * length[10] + 0x100000000 * length[11]
            + 0x1000000 * length[12] + 0x10000 * length[13] + 0x100 * length[14] + length[15]
            == (8 * (m.len() as int)) % 0x1_00000000000000000000000000000000int,
        padded == m + seq![0x80u8] + Seq::new(z, |i: int| 0u8) + length,
        padded.len() % 128 == 0,
        v.len() == padded.len() / 128 + 1,
        v[0] == initial_state(),
        forall|j: int|
            1 <= j < v.len() ==> #[trigger] v[j] == compressed(
                v[j - 1],
                padded.subrange(128 * (j - 1), 128 * j),
            ),
    ensures
        digest(m).len() == 64,
        v.last().a == 0x100000000000000 * digest(m)[0] + 0x1000000000000 * digest(m)[1]
            + 0x10000000000 * digest(m)[2] + 0x100000000 * digest(m)[3] + 0x1000000 * digest(m)[4]
            + 0x10000 * digest(m)[5] + 0x100 * digest(m)[6] + digest(m)[7],
        v.last().b == 0x100000000000000 * digest(m)[8] + 0x1000000000000 * digest(m)[9]
            + 0x10000000000 * digest(m)[10] + 0x100000000 * digest(m)[11]
            + 0x1000000 * digest(m)[12] + 0x10000 * digest(m)[13] + 0x100 * digest(m)[14]
            + digest(m)[15],
        v.last().c == 0x100000000000000 * digest(m)[16] + 0x1000000000000 * digest(m)[17]
            + 0x10000000000 * digest(m)[18] + 0x100000000 * digest(m)[19]
            + 0x1000000 * digest(m)[20] + 0x10000 * digest(m)[21] + 0x100 * digest(m)[22]
            + digest(m)[23],
        v.last().d == 0x100000000000000 * digest(m)[24] + 0x1000000000000 * digest(m)[25]
            + 0x10000000000 * digest(m)[26] + 0x100000000 * digest(m)[27]
            + 0x1000000 * digest(m)[28] + 0x10000 * digest(m)[29] + 0x100 * digest(m)[30]
            + digest(m)[31],
        v.last().e == 0x100000000000000 * digest(m)[32] + 0x1000000000000 * digest(m)[33]
            + 0x10000000000 * digest(m)[34] + 0x100000000 * digest(m)[35]
            + 0x1000000 * digest(m)[36] + 0x10000 * digest(m)[37] + 0x100 * digest(m)[38]
            + digest(m)[39],
        v.last().f == 0x100000000000000 * digest(m)[40] + 0x1000000000000 * digest(m)[41]
            + 0x10000000000 * digest(m)[42] + 0x100000000 * digest(m)[43]
            + 0x1000000 * digest(m)[44] + 0x10000 * digest(m)[45] + 0x100 * digest(m)[46]
            + digest(m)[47],
        v.last().g == 0x100000000000000 * digest(m)[48] + 0x1000000000000 * digest(m)[49]
            + 0x10000000000 * digest(m)[50] + 0x100000000 * digest(m)[51]
            + 0x1000000 * digest(m)[52] + 0x10000 * digest(m)[53] + 0x100 * digest(m)[54]
            + digest(m)[55],
        v.last().h == 0x100000000000000 * digest(m)[56] + 0x1000000000000 * digest(m)[57]
            + 0x10000000000 * digest(m)[58] + 0x100000000 * digest(m)[59]
            + 0x1000000 * digest(m)[60] + 0x10000 * digest(m)[61] + 0x100 * digest(m)[62]
            + digest(m)[63],
{
    let n = block_count(m.len() as int);
    lemma_padded_length(m.len() as int, z as int);
    assert forall|i: int| 0 <= i < padded.len() implies padded[i] == padded_byte(m, i) by {
        lemma_padding_byte(m, z, length, padded, i);
    }
    lemma_chain(m, padded, v, n);
    lemma_digest_word(m, 0);
    lemma_digest_word(m, 1);
    lemma_digest_word(m, 2);
    lemma_digest_word(m, 3);
    lemma_digest_word(m, 4);
    lemma_digest_word(m, 5);
    lemma_digest_word(m, 6);
    lemma_digest_word(m, 7);
}

/// A word of the last state is made up of the bytes of the digest.
proof fn lemma_digest_word(m: Seq<u8>, i: int)
    requires
        0 <= i < 8,
    ensures
        state_word(state_after(m, block_count(m.len() as int)), i) == 0x100000000000000 * digest(m)[8 * i]
            + 0x1000000000000 * digest(m)[8 * i + 1] + 0x10000000000 * digest(m)[8 * i + 2]
            + 0x100000000 * digest(m)[8 * i + 3] + 0x1000000 * digest(m)[8 * i + 4]
            + 0x10000 * digest(m)[8 * i + 5] + 0x100 * digest(m)[8 * i + 6] + digest(m)[8 * i + 7],
{
    let w = state_word(state_after(m, block_count(m.len() as int)), i) as int;
    lemma_digest_byte(m, i, 0);
    lemma_digest_byte(m, i, 1);
    lemma_digest_byte(m, i, 2);
    lemma_digest_byte(m, i, 3);
    lemma_digest_byte(m, i, 4);
    lemma_digest_byte(m, i, 5);
    lemma_digest_byte(m, i, 6);
    lemma_digest_byte(m, i, 7);
    lemma_word_bytes(w);
}

proof fn lemma_digest_byte(m: Seq<u8>, i: int, k: int)
    requires
        0 <= i < 8,
        0 <= k < 8,
    ensures
        digest(m)[8 * i + k] == byte_of(
            state_word(state_after(m, block_count(m.len() as int)), i) as int,
            7 - k,
        ),
{
    let w = state_word(state_after(m, block_count(m.len() as int)), i) as int;
    lemma_word_bytes(w);
    assert((8 * i + k) / 8 == i && (8 * i + k) % 8 == k);
    assert(0 <= byte_of(w, 7 - k) < 256);
}

/// The bytes of a word make up the word.
proof fn lemma_word_bytes(w: int)
    requires
        0 <= w < 0x1_0000000000000000,
    ensures
        w == 0x100000000000000 * byte_of(w, 7) + 0x1000000000000 * byte_of(w, 6)
            + 0x10000000000 * byte_of(w, 5) + 0x100000000 * byte_of(w, 4)
            + 0x1000000 * byte_of(w, 3) + 0x10000 * byte_of(w, 2) + 0x100 * byte_of(w, 1)
            + byte_of(w, 0),
        forall|k: int| 0 <= k < 8 ==> 0 <= #[trigger] byte_of(w, k) < 256,
{
    reveal_with_fuel(byte_of, 9);
}

/// The integer of the first bytes of a sequence, most significant first.
spec fn big_endian(b: Seq<u8>, n: int) -> int
    decreases n,
{
    if n <= 0 {
        0
    } else {
        256 * big_endian(b, n - 1) + b[n - 1]
    }
}

/// A power of 256.
spec fn weight(n: int) -> int
    decreases n,
{
    if n <= 0 {
        1
    } else {
        256 * weight(n - 1)
    }
}

proof fn lemma_byte_at(v: int, q: int, b: Seq<u8>, n: int, k: int)
    requires
        v == q * weight(n) + big_endian(b, n),
        0 <= k < n,
    ensures
        byte_of(v, k) == b[n - 1 - k],
    decreases k,
{
    let w = weight(n - 1);
    assert(q * (256 * w) == 256 * (q * w)) by (nonlinear_arith);
    assert(v == 256 * (q * w + big_endian(b, n - 1)) + b[n - 1]);
    if k > 0 {
        lemma_byte_at(v / 256, q, b, n - 1, k - 1);
    }
}

/// The bytes of the length of the padding.
proof fn lemma_length_byte(v: int, length: Seq<u8>, k: int)
    requires
        length.len() == 16,
        0x1000000000000000000000000000000int * length[0]
            + 0x10000000000000000000000000000int * length[1]
            + 0x100000000000000000000000000int * length[2]
            + 0x1000000000000000000000000int * length[3] + 0x10000000000000000000000int * length[4]
            + 0x100000000000000000000int * length[5] + 0x1000000000000000000int * length[6]
            + 0x10000000000000000int * length[7] + 0x100000000000000 * length[8]
            + 0x1000000000000 * length[9] + 0x10000000000 * length[10] + 0x100000000 * length[11]
            + 0x1000000 * length[12] + 0x10000 * length[13] + 0x100 * length[14] + length[15]
            == v % 0x1_00000000000000000000000000000000int,
        0 <= k < 16,
    ensures
        byte_of(v, k) == length[15 - k],
{
    let q = v / 0x1_00000000000000000000000000000000int;
    assert(weight(16) == 0x1_00000000000000000000000000000000int) by {
        reveal_with_fuel(weight, 17);
    }
    assert(big_endian(length, 16) == v % 0x1_00000000000000000000000000000000int) by {
        reveal_with_fuel(big_endian, 17);
    }
    assert(v == q * 0x1_00000000000000000000000000000000int + big_endian(length, 16));
    lemma_byte_at(v, q, length, 16, k);
}

proof fn lemma_padded_length(n: int, z: int)
    requires
        0 <= n,
        0 <= z < 128,
        (n + 1 + z + 16) % 128 == 0,
    ensures
        n + 1 + z + 16 == 128 * block_count(n),
{
}

proof fn lemma_padding_byte(m: Seq<u8>, z: nat, length: Seq<u8>, padded: Seq<u8>, i: int)
    requires
        z < 128,
        length.len() == 16,
        0x1000000000000000000000000000000int * length[0]
            + 0x10000000000000000000000000000int * length[1]
            + 0x100000000000000000000000000int * length[2]
            + 0x1000000000000000000000000int * length[3] + 0x10000000000000000000000int * length[4]
            + 0x100000000000000000000int * length[5] + 0x1000000000000000000int * length[6]
            + 0x10000000000000000int * length[7] + 0x100000000000000 * length[8]
            + 0x1000000000000 * length[9] + 0x10000000000 * length[10] + 0x100000000 * length[11]
            + 0x1000000 * length[12] + 0x10000 * length[13] + 0x100 * length[14] + length[15]
            == (8 * (m.len() as int)) % 0x1_00000000000000000000000000000000int,
        padded == m + seq![0x80u8] + Seq::new(z, |i: int| 0u8) + length,
        padded.len() == 128 * block_count(m.len() as int),
        0 <= i < padded.len(),
    ensures
        padded[i] == padded_byte(m, i),
{
    let last = padded.len() - 1;
    if i > last - 16 {
        assert(padded[i] == length[15 - (last - i)]);
        lemma_length_byte(8 * (m.len() as int), length, last - i);
    }
}

proof fn lemma_chain(m: Seq<u8>, padded: Seq<u8>, v: Seq<State>, j: int)
    requires
        0 <= j < v.len(),
        padded.len() == 128 * (v.len() - 1),
        forall|i: int| 0 <= i < padded.len() ==> #[trigger] padded[i] == padded_byte(m, i),
        v[0] == initial_state(),
        forall|j: int|
            1 <= j < v.len() ==> #[trigger] v[j] == compressed(
                v[j - 1],
                padded.subrange(128 * (j - 1), 128 * j),
            ),
    ensures
        v[j] == state_after(m, j),
    decreases j,
{
    if j > 0 {
        lemma_chain(m, padded, v, j - 1);
        assert(padded.subrange(128 * (j - 1), 128 * j) =~= padded_block(m, j - 1));
        let s = v[j];
    }
}

/// A challenge is the digest of the encoding of `R`, the public key and the
/// message, in this order, as a little-endian integer modulo the order.
pub proof fn lemma_challenge(r: Seq<u8>, public_key: Seq<u8>, message: Seq<u8>)
    ensures
        ({
            let h = digest(r + public_key + message);
            &&& h.len() == 64
            &&& 0 <= challenge(r, public_key, message)
                < 0x1000000000000000000000000000000014def9dea2f79cd65812631a5cf5d3edint
            &&& (le256(h.subrange(0, 32))
                + 0x1_0000000000000000000000000000000000000000000000000000000000000000int * le256(
                h.subrange(32, 64),
            ) - challenge(r, public_key, message))
                % 0x1000000000000000000000000000000014def9dea2f79cd65812631a5cf5d3edint == 0
        }),
{
    let h = digest(r + public_key + message);
    lemma_sixty_four_bytes(h);
    lemma_remainder(
        le512(h),
        challenge(r, public_key, message),
        0x1000000000000000000000000000000014def9dea2f79cd65812631a5cf5d3edint,
    );
}

/// Every block of the padded message is absorbed: the state after some blocks is
/// that of the last of them on the state before it, and before any it is the initial
/// one.
pub proof fn lemma_every_block_is_absorbed(m: Seq<u8>, j: int)
    requires
        j >= 1,
    ensures
        state_after(m, 0) == initial_state(),
        state_after(m, j) == compressed(state_after(m, j - 1), padded_block(m, j - 1)),
{
}

/// Two messages of one length that start with the same whole blocks have the same
/// state after them.
pub proof fn lemma_common_blocks(first: Seq<u8>, second: Seq<u8>, j: int)
    requires
        first.len() == second.len(),
        0 <= 128 * j <= first.len(),
        first.subrange(0, 128 * j) == second.subrange(0, 128 * j),
    ensures
        state_after(first, j) == state_after(second, j),
    decreases j,
{
    if j > 0 {
        assert(first.subrange(0, 128 * (j - 1)) =~= first.subrange(0, 128 * j).subrange(
            0,
            128 * (j - 1),
        ));
        assert(second.subrange(0, 128 * (j - 1)) =~= second.subrange(0, 128 * j).subrange(
            0,
            128 * (j - 1),
        ));
        lemma_common_blocks(first, second, j - 1);
        let (b, c) = (padded_block(first, j - 1), padded_block(second, j - 1));
        assert forall|i: int| 0 <= i < 128 implies #[trigger] b[i] == c[i] by {
            let q = 128 * (j - 1) + i;
            assert(first.subrange(0, 128 * j)[q] == first[q]);
            assert(second.subrange(0, 128 * j)[q] == second[q]);
        }
        assert(b =~= c);
    }
}

} // verus!
