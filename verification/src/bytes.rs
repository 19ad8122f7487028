//! Little-endian integers as byte strings.
use vstd::prelude::*;

verus! {

/// The 64-bit little-endian integer at an offset.
pub open spec fn le64(b: Seq<u8>, i: int) -> int {
    b[i] + 0x100 * b[i + 1] + 0x1_0000 * b[i + 2] + 0x100_0000 * b[i + 3] + 0x1_0000_0000 * b[i + 4]
        + 0x100_0000_0000 * b[i + 5] + 0x1_0000_0000_0000 * b[i + 6] + 0x100_0000_0000_0000 * b[i
        + 7]
}

/// The integer that 32 bytes stand for, least significant byte first.
pub open spec fn le256(b: Seq<u8>) -> int {
    words256(le64(b, 0), le64(b, 8), le64(b, 16), le64(b, 24))
}

/// The integer that four 64-bit words stand for, least significant word first.
pub open spec fn words256(w0: int, w1: int, w2: int, w3: int) -> int {
    w0 + 0x1_0000000000000000int * w1 + 0x1_00000000000000000000000000000000int * w2
        + 0x1_000000000000000000000000000000000000000000000000int * w3
}

/// The integer that 64 bytes stand for, least significant byte first.
pub open spec fn le512(b: Seq<u8>) -> int {
    words256(le64(b, 0), le64(b, 8), le64(b, 16), le64(b, 24))
        + 0x1_0000000000000000000000000000000000000000000000000000000000000000int * words256(
        le64(b, 32),
        le64(b, 40),
        le64(b, 48),
        le64(b, 56),
    )
}

/// Reads the word at an offset.
pub fn load64(b: &[u8], i: usize) -> (w: u64)
    requires
        i + 8 <= b@.len(),
    ensures
        w == le64(b@, i as int),
{
    b[i] as u64 + 0x100 * (b[i + 1] as u64) + 0x1_0000 * (b[i + 2] as u64) + 0x100_0000 * (b[i
        + 3] as u64) + 0x1_0000_0000 * (b[i + 4] as u64) + 0x100_0000_0000 * (b[i + 5] as u64)
        + 0x1_0000_0000_0000 * (b[i + 6] as u64) + 0x100_0000_0000_0000 * (b[i + 7] as u64)
}

/// Reads 32 bytes as four words.
pub fn load_words(b: &[u8; 32]) -> (w: [u64; 4])
    ensures
        le256(b@) == words256(w[0] as int, w[1] as int, w[2] as int, w[3] as int),
        w[0] == le64(b@, 0),
        w[1] == le64(b@, 8),
        w[2] == le64(b@, 16),
        w[3] == le64(b@, 24),
{
    [load64(b, 0), load64(b, 8), load64(b, 16), load64(b, 24)]
}

/// The eight bytes of a word.
pub fn store64(w: u64) -> (b: [u8; 8])
    ensures
        le64(b@, 0) == w,
{
    let w1: u64 = w / 256;
    let w2: u64 = w1 / 256;
    let w3: u64 = w2 / 256;
    let w4: u64 = w3 / 256;
    let w5: u64 = w4 / 256;
    let w6: u64 = w5 / 256;
    let w7: u64 = w6 / 256;
    [
        (w % 256) as u8,
        (w1 % 256) as u8,
        (w2 % 256) as u8,
        (w3 % 256) as u8,
        (w4 % 256) as u8,
        (w5 % 256) as u8,
        (w6 % 256) as u8,
        w7 as u8,
    ]
}

/// Writes four words as 32 bytes.
pub fn store_words(w: &[u64; 4]) -> (b: [u8; 32])
    ensures
        le256(b@) == words256(w[0] as int, w[1] as int, w[2] as int, w[3] as int),
        b[31] / 128 == w[3] / 0x8000_0000_0000_0000,
{
    let a0 = store64(w[0]);
    let a1 = store64(w[1]);
    let a2 = store64(w[2]);
    let a3 = store64(w[3]);
    [
        a0[0], a0[1], a0[2], a0[3], a0[4], a0[5], a0[6], a0[7],
        a1[0], a1[1], a1[2], a1[3], a1[4], a1[5], a1[6], a1[7],
        a2[0], a2[1], a2[2], a2[3], a2[4], a2[5], a2[6], a2[7],
        a3[0], a3[1], a3[2], a3[3], a3[4], a3[5], a3[6], a3[7],
    ]
}

/// The sizes of the two kinds of integers.
pub proof fn lemma_le_bounds(b: Seq<u8>)
    requires
        b.len() == 32,
    ensures
        0 <= le64(b, 0) < 0x1_0000000000000000,
        0 <= le64(b, 8) < 0x1_0000000000000000,
        0 <= le64(b, 16) < 0x1_0000000000000000,
        0 <= le64(b, 24) < 0x1_0000000000000000,
        0 <= le256(b)
            < 0x1_0000000000000000000000000000000000000000000000000000000000000000int,
        le64(b, 24) / 0x8000_0000_0000_0000 == b[31] as int / 128,
{
}

/// The lowest digit of an integer and the rest of it.
proof fn lemma_digit(x0: int, x: int, y0: int, y: int)
    requires
        0 <= x0 < 256,
        0 <= y0 < 256,
        x0 + 256 * x == y0 + 256 * y,
    ensures
        x0 == y0,
        x == y,
{
}

/// The lowest word of an integer and the rest of it.
proof fn lemma_word(x0: int, x: int, y0: int, y: int)
    requires
        0 <= x0 < 0x1_0000000000000000,
        0 <= y0 < 0x1_0000000000000000,
        x0 + 0x1_0000000000000000 * x == y0 + 0x1_0000000000000000 * y,
    ensures
        x0 == y0,
        x == y,
{
}

/// A word determines its bytes.
proof fn lemma_le64_injective(a: Seq<u8>, b: Seq<u8>, i: int)
    requires
        0 <= i,
        i + 8 <= a.len(),
        i + 8 <= b.len(),
        le64(a, i) == le64(b, i),
    ensures
        forall|j: int| i <= j < i + 8 ==> a[j] == b[j],
{
    let a6 = a[i + 6] + 256 * a[i + 7];
    let a5 = a[i + 5] + 256 * a6;
    let a4 = a[i + 4] + 256 * a5;
    let a3 = a[i + 3] + 256 * a4;
    let a2 = a[i + 2] + 256 * a3;
    let a1 = a[i + 1] + 256 * a2;
    let b6 = b[i + 6] + 256 * b[i + 7];
    let b5 = b[i + 5] + 256 * b6;
    let b4 = b[i + 4] + 256 * b5;
    let b3 = b[i + 3] + 256 * b4;
    let b2 = b[i + 2] + 256 * b3;
    let b1 = b[i + 1] + 256 * b2;
    lemma_digit(a[i] as int, a1, b[i] as int, b1);
    lemma_digit(a[i + 1] as int, a2, b[i + 1] as int, b2);
    lemma_digit(a[i + 2] as int, a3, b[i + 2] as int, b3);
    lemma_digit(a[i + 3] as int, a4, b[i + 3] as int, b4);
    lemma_digit(a[i + 4] as int, a5, b[i + 4] as int, b5);
    lemma_digit(a[i + 5] as int, a6, b[i + 5] as int, b6);
    lemma_digit(a[i + 6] as int, a[i + 7] as int, b[i + 6] as int, b[i + 7] as int);
    assert forall|j: int| i <= j < i + 8 implies a[j] == b[j] by {
        assert(j == i || j == i + 1 || j == i + 2 || j == i + 3 || j == i + 4 || j == i + 5 || j == i
            + 6 || j == i + 7);
    }
}

/// Four words are determined by the integer that they stand for.
proof fn lemma_words_injective(a0: int, a1: int, a2: int, a3: int, b0: int, b1: int, b2: int, b3: int)
    requires
        0 <= a0 < 0x1_0000000000000000,
        0 <= a1 < 0x1_0000000000000000,
        0 <= a2 < 0x1_0000000000000000,
        0 <= b0 < 0x1_0000000000000000,
        0 <= b1 < 0x1_0000000000000000,
        0 <= b2 < 0x1_0000000000000000,
        words256(a0, a1, a2, a3) == words256(b0, b1, b2, b3),
    ensures
        a0 == b0,
        a1 == b1,
        a2 == b2,
        a3 == b3,
{
    let x2 = a2 + 0x1_0000000000000000 * a3;
    let x1 = a1 + 0x1_0000000000000000 * x2;
    let y2 = b2 + 0x1_0000000000000000 * b3;
    let y1 = b1 + 0x1_0000000000000000 * y2;
    lemma_word(a0, x1, b0, y1);
    lemma_word(a1, x2, b1, y2);
    lemma_word(a2, a3, b2, b3);
}

/// An integer determines its 32 bytes.
pub proof fn lemma_le256_injective(a: Seq<u8>, b: Seq<u8>)
    requires
        a.len() == 32,
        b.len() == 32,
        le256(a) == le256(b),
    ensures
        a == b,
{
    lemma_le_bounds(a);
    lemma_le_bounds(b);
    let (a0, a1, a2, a3) = (le64(a, 0), le64(a, 8), le64(a, 16), le64(a, 24));
    let (b0, b1, b2, b3) = (le64(b, 0), le64(b, 8), le64(b, 16), le64(b, 24));
    lemma_words_injective(a0, a1, a2, a3, b0, b1, b2, b3);
    lemma_le64_injective(a, b, 0);
    lemma_le64_injective(a, b, 8);
    lemma_le64_injective(a, b, 16);
    lemma_le64_injective(a, b, 24);
    assert(a =~= b);
}

/// Whether two strings of 32 bytes are the same.
pub fn bytes_equal(a: &[u8; 32], b: &[u8; 32]) -> (r: bool)
    ensures
        r == (a@ == b@),
{
    let mut i: usize = 0;
    while i < 32
        invariant
            i <= 32,
            forall|j: int| 0 <= j < i ==> a[j] == b[j],
        decreases 32 - i,
    {
        if a[i] != b[i] {
            return false;
        }
        i += 1;
    }
    assert(a@ =~= b@);
    true
}

} // verus!
