//! Scalars: integers below the order of the base point, and their signed
//! digits.
use crate::bytes::{le256, lemma_le_bounds, load_words, words256};
use crate::math::congruence::{
    eqm, lemma_eqm_intro, lemma_eqm_mod, lemma_eqm_ops, lemma_eqm_refl, lemma_eqm_small,
    lemma_eqm_trans,
};
use vstd::prelude::*;

verus! {

/// The order of the base point.
pub open spec fn order() -> int {
    0x1000000000000000000000000000000014def9dea2f79cd65812631a5cf5d3edint
}

/// A scalar below the order, as four words.
#[derive(Clone, Copy, Debug)]
pub struct Scalar {
    words: [u64; 4],
}

/// The 64 digits of a scalar in radix 16, least significant first.
pub type Radix16 = [i8; 64];

/// The 32 digits of half a scalar in radix 16, least significant first.
pub type Radix16Half = [i8; 32];

/// The integer that the digits from a position on stand for.
pub open spec fn digits_from(d: Seq<i8>, i: int) -> int
    decreases d.len() - i,
{
    if i >= d.len() {
        0
    } else {
        d[i] + 16 * digits_from(d, i + 1)
    }
}

/// Every digit is between `-8` and `8`.
pub open spec fn digits_small(d: Seq<i8>) -> bool {
    forall|i: int| 0 <= i < d.len() ==> -8 <= #[trigger] d[i] <= 8
}

/// Digits with a sequence of rests, each of which is its digit and sixteen
/// times the next rest, stand for the first rest.
proof fn lemma_rests(d: Seq<i8>, rests: Seq<int>, i: int)
    requires
        0 <= i <= d.len(),
        rests.len() == d.len() + 1,
        rests[d.len() as int] == 0,
        forall|j: int| 0 <= j < d.len() ==> #[trigger] rests[j] == d[j] + 16 * rests[j + 1],
    ensures
        digits_from(d, i) == rests[i],
    decreases d.len() - i,
{
    if i < d.len() {
        lemma_rests(d, rests, i + 1);
        assert(rests[i] == d[i] + 16 * rests[i + 1]);
    }
}

/// Whether 32 bytes stand for an integer below the order.
pub fn is_canonical(bytes: &[u8; 32]) -> (r: bool)
    ensures
        r == (le256(bytes@) < order()),
{
    let w = load_words(bytes);
    if w[3] != 0x1000000000000000 {
        return w[3] < 0x1000000000000000;
    }
    if w[2] != 0 {
        return false;
    }
    if w[1] != 0x14def9dea2f79cd6 {
        return w[1] < 0x14def9dea2f79cd6;
    }
    w[0] < 0x5812631a5cf5d3ed
}

/// The value of the words from a position on.
pub open spec fn wide_from(w: Seq<u64>, i: int) -> int
    decreases w.len() - i,
{
    if i >= w.len() {
        0
    } else {
        w[i] + 0x1_0000000000000000 * wide_from(w, i + 1)
    }
}

impl Scalar {
    /// The integer that the words stand for.
    #[verifier::opaque]
    pub closed spec fn val(self) -> int {
        words256(
            self.words[0] as int,
            self.words[1] as int,
            self.words[2] as int,
            self.words[3] as int,
        )
    }

    /// The integer is below the order.
    pub open spec fn wf(self) -> bool {
        0 <= self.val() < order()
    }

    pub fn from_canonical_bytes(bytes: [u8; 32]) -> (r: Self)
        requires
            le256(bytes@) < order(),
        ensures
            r.wf(),
            r.val() == le256(bytes@),
    {
        let words = load_words(&bytes);
        proof {
            reveal(Scalar::val);
            lemma_le_bounds(bytes@);
        }
        Scalar { words }
    }

    /// Twice a scalar and a bit, less the order where that is reached.
    fn push_bit(&self, bit: u64) -> (r: Self)
        requires
            self.wf(),
            bit <= 1,
        ensures
            r.wf(),
            eqm(order(), r.val(), 2 * self.val() + bit),
    {
        reveal(Scalar::val);
        let half: u64 = 0x8000_0000_0000_0000;
        let w0: u64 = 2 * (self.words[0] % half) + bit;
        let w1: u64 = 2 * (self.words[1] % half) + self.words[0] / half;
        let w2: u64 = 2 * (self.words[2] % half) + self.words[1] / half;
        let w3: u64 = 2 * (self.words[3] % half) + self.words[2] / half;
        let s = Scalar { words: [w0, w1, w2, w3] };
        assert(s.val() == 2 * self.val() + bit);
        let below = if w3 != 0x1000000000000000 {
            w3 < 0x1000000000000000
        } else if w2 != 0 {
            false
        } else if w1 != 0x14def9dea2f79cd6 {
            w1 < 0x14def9dea2f79cd6
        } else {
            w0 < 0x5812631a5cf5d3ed
        };
        assert(below == (s.val() < order()));
        if below {
            proof {
                lemma_eqm_refl(order(), s.val());
            }
            s
        } else {
            let (d0, b0) = sub_borrow(w0, 0x5812631a5cf5d3ed, 0);
            let (d1, b1) = sub_borrow(w1, 0x14def9dea2f79cd6, b0);
            let (d2, b2) = sub_borrow(w2, 0, b1);
            let (d3, b3) = sub_borrow(w3, 0x1000000000000000, b2);
            let r = Scalar { words: [d0, d1, d2, d3] };
            proof {
                lemma_eqm_intro(order(), r.val(), s.val(), -1);
            }
            r
        }
    }

    /// Appends a byte: `256` times the scalar and the byte.
    fn push_byte(&self, byte: u64) -> (r: Self)
        requires
            self.wf(),
            byte < 256,
        ensures
            r.wf(),
            eqm(order(), r.val(), 256 * self.val() + byte),
    {
        let q1: u64 = byte / 2;
        let q2: u64 = q1 / 2;
        let q3: u64 = q2 / 2;
        let q4: u64 = q3 / 2;
        let q5: u64 = q4 / 2;
        let q6: u64 = q5 / 2;
        let q7: u64 = q6 / 2;
        let r1 = self.push_bit(q7);
        let r2 = r1.push_bit(q6 % 2);
        let r3 = r2.push_bit(q5 % 2);
        let r4 = r3.push_bit(q4 % 2);
        let r5 = r4.push_bit(q3 % 2);
        let r6 = r5.push_bit(q2 % 2);
        let r7 = r6.push_bit(q1 % 2);
        let r8 = r7.push_bit(byte % 2);
        proof {
            let v = self.val();
            lemma_push(2, r1.val(), 2 * v + q7, r2.val(), (q6 % 2) as int);
            lemma_push(2, r2.val(), 4 * v + q6, r3.val(), (q5 % 2) as int);
            lemma_push(2, r3.val(), 8 * v + q5, r4.val(), (q4 % 2) as int);
            lemma_push(2, r4.val(), 16 * v + q4, r5.val(), (q3 % 2) as int);
            lemma_push(2, r5.val(), 32 * v + q3, r6.val(), (q2 % 2) as int);
            lemma_push(2, r6.val(), 64 * v + q2, r7.val(), (q1 % 2) as int);
            lemma_push(2, r7.val(), 128 * v + q1, r8.val(), (byte % 2) as int);
        }
        r8
    }

    /// Appends a word: `2^64` times the scalar and the word.
    fn push_word(&self, w: u64) -> (r: Self)
        requires
            self.wf(),
        ensures
            r.wf(),
            eqm(order(), r.val(), 0x1_0000000000000000 * self.val() + w),
    {
        let q1: u64 = w / 256;
        let q2: u64 = q1 / 256;
        let q3: u64 = q2 / 256;
        let q4: u64 = q3 / 256;
        let q5: u64 = q4 / 256;
        let q6: u64 = q5 / 256;
        let q7: u64 = q6 / 256;
        let r1 = self.push_byte(q7);
        let r2 = r1.push_byte(q6 % 256);
        let r3 = r2.push_byte(q5 % 256);
        let r4 = r3.push_byte(q4 % 256);
        let r5 = r4.push_byte(q3 % 256);
        let r6 = r5.push_byte(q2 % 256);
        let r7 = r6.push_byte(q1 % 256);
        let r8 = r7.push_byte(w % 256);
        proof {
            let v = self.val();
            lemma_push(256, r1.val(), 0x100 * v + q7, r2.val(), (q6 % 256) as int);
            lemma_push(256, r2.val(), 0x1_0000 * v + q6, r3.val(), (q5 % 256) as int);
            lemma_push(256, r3.val(), 0x100_0000 * v + q5, r4.val(), (q4 % 256) as int);
            lemma_push(256, r4.val(), 0x1_0000_0000 * v + q4, r5.val(), (q3 % 256) as int);
            lemma_push(256, r5.val(), 0x100_0000_0000 * v + q3, r6.val(), (q2 % 256) as int);
            lemma_push(256, r6.val(), 0x1_0000_0000_0000 * v + q2, r7.val(), (q1 % 256) as int);
            lemma_push(256, r7.val(), 0x100_0000_0000_0000 * v + q1, r8.val(), (w % 256) as int);
        }
        r8
    }

    /// The 512-bit integer of eight words, least significant first, modulo the
    /// order.
    pub fn from_wide_words(words: [u64; 8]) -> (r: Self)
        ensures
            r.wf(),
            r.val() == wide_from(words@, 0) % order(),
    {
        let mut r = Scalar { words: [0, 0, 0, 0] };
        let mut i: usize = 8;
        proof {
            reveal(Scalar::val);
            lemma_eqm_refl(order(), 0);
        }
        while i > 0
            invariant
                i <= 8,
                r.wf(),
                eqm(order(), r.val(), wide_from(words@, i as int)),
            decreases i,
        {
            i -= 1;
            let ghost before = r.val();
            r = r.push_word(words[i]);
            proof {
                let w = words@[i as int] as int;
                let rest = wide_from(words@, i + 1);
                let k: int = 0x1_0000000000000000;
                lemma_eqm_refl(order(), k);
                lemma_eqm_refl(order(), w);
                lemma_eqm_ops(order(), k, k, before, rest);
                lemma_eqm_ops(order(), k * before, k * rest, w, w);
                lemma_eqm_trans(order(), r.val(), k * before + w, k * rest + w);
            }
        }
        proof {
            let v = wide_from(words@, 0);
            lemma_eqm_mod(order(), v);
            lemma_eqm_trans(order(), r.val(), v, v % order());
            lemma_eqm_small(order(), r.val(), v % order());
        }
        r
    }
}

/// One appended digit, up to the order.
proof fn lemma_push(base: int, a: int, v: int, b: int, digit: int)
    requires
        eqm(order(), a, v),
        eqm(order(), b, base * a + digit),
    ensures
        eqm(order(), b, base * v + digit),
{
    lemma_eqm_refl(order(), base);
    lemma_eqm_refl(order(), digit);
    lemma_eqm_ops(order(), base, base, a, v);
    lemma_eqm_ops(order(), base * a, base * v, digit, digit);
    lemma_eqm_trans(order(), b, base * a + digit, base * v + digit);
}

/// A difference of words, with a borrow in and out.
fn sub_borrow(a: u64, b: u64, borrow: u64) -> (r: (u64, u64))
    requires
        borrow <= 1,
        b < 0xffff_ffff_ffff_ffff,
    ensures
        r.1 <= 1,
        r.0 == a - b - borrow + 0x1_0000000000000000 * r.1,
{
    let s: u64 = b + borrow;
    if a >= s {
        (a - s, 0)
    } else {
        ((0xffff_ffff_ffff_ffff - s) + 1 + a, 1)
    }
}

/// A digit in radix 16 and a carry, brought to the range from `-8` to `7`.
fn recenter(nibble: u64, carry: bool) -> (r: (i8, bool))
    requires
        nibble < 16,
    ensures
        -8 <= r.0 <= 7,
        r.0 + 16 * (r.1 as int) == nibble + (carry as int),
{
    let n: i8 = if carry {
        nibble as i8 + 1
    } else {
        nibble as i8
    };
    if n >= 8 {
        (n - 16, true)
    } else {
        (n, false)
    }
}

/// `top` times sixteen to the `k`: what bounds a rest of `k` digits and one
/// below `top`.
spec fn room(top: int, k: int) -> int
    decreases k,
{
    if k <= 0 {
        top
    } else {
        16 * room(top, k - 1)
    }
}

/// The 32 signed digits of an integer below `2^127`.
fn recode_half(v: u128) -> (d: Radix16Half)
    requires
        v < 0x8000_0000_0000_0000_0000_0000_0000_0000,
    ensures
        digits_from(d@, 0) == v,
        digits_small(d@),
{
    let mut d: [i8; 32] = [0; 32];
    let mut rest: u128 = v;
    let mut carry = false;
    let ghost mut rests: Seq<int> = seq![v as int];
    let mut i: usize = 0;
    proof {
        assert(room(8, 31) == 0x8000_0000_0000_0000_0000_0000_0000_0000int) by {
            reveal_with_fuel(room, 33);
        }
    }
    while i < 31
        invariant
            i <= 31,
            rest < room(8, 31 - i),
            rests.len() == i + 1,
            rests[0] == v,
            rests[i as int] == rest + (carry as int),
            forall|j: int| 0 <= j < i ==> #[trigger] rests[j] == d@[j] + 16 * rests[j + 1],
            forall|j: int| 0 <= j < 32 ==> -8 <= #[trigger] d@[j] <= 8,
        decreases 31 - i,
    {
        let (digit, c) = recenter((rest % 16) as u64, carry);
        d[i] = digit;
        proof {
            rests = rests.push(rest / 16 + (c as int));
        }
        rest = rest / 16;
        carry = c;
        i += 1;
    }
    d[31] = if carry {
        rest as i8 + 1
    } else {
        rest as i8
    };
    proof {
        rests = rests.push(0);
        lemma_rests(d@, rests, 0);
    }
    d
}

impl Scalar {
    /// The 64 signed digits of a scalar.
    pub fn to_radix16(&self) -> (d: Radix16)
        requires
            self.wf(),
        ensures
            digits_from(d@, 0) == self.val(),
            digits_small(d@),
    {
        let mut d: [i8; 64] = [0; 64];
        let mut w0: u64 = self.words[0];
        let mut w1: u64 = self.words[1];
        let mut w2: u64 = self.words[2];
        let mut w3: u64 = self.words[3];
        let mut carry = false;
        let ghost mut rest: int = self.val();
        let ghost mut rests: Seq<int> = seq![rest];
        let mut i: usize = 0;
        proof {
            reveal(Scalar::val);
            assert(room(2, 63) == 0x2000000000000000000000000000000000000000000000000000000000000000int)
                by {
                reveal_with_fuel(room, 65);
            }
        }
        while i < 63
            invariant
                i <= 63,
                rest == words256(w0 as int, w1 as int, w2 as int, w3 as int),
                rest < room(2, 63 - i),
                rests.len() == i + 1,
                rests[0] == self.val(),
                rests[i as int] == rest + (carry as int),
                forall|j: int| 0 <= j < i ==> #[trigger] rests[j] == d@[j] + 16 * rests[j + 1],
                forall|j: int| 0 <= j < 64 ==> -8 <= #[trigger] d@[j] <= 8,
            decreases 63 - i,
        {
            let (digit, c) = recenter(w0 % 16, carry);
            d[i] = digit;
            let ghost before = rest;
            let ghost nibble = w0 % 16;
            let n0: u64 = w0 / 16 + 0x1000_0000_0000_0000 * (w1 % 16);
            let n1: u64 = w1 / 16 + 0x1000_0000_0000_0000 * (w2 % 16);
            let n2: u64 = w2 / 16 + 0x1000_0000_0000_0000 * (w3 % 16);
            let n3: u64 = w3 / 16;
            proof {
                rest = words256(n0 as int, n1 as int, n2 as int, n3 as int);
                assert(before == nibble + 16 * rest);
                rests = rests.push(rest + (c as int));
            }
            w0 = n0;
            w1 = n1;
            w2 = n2;
            w3 = n3;
            carry = c;
            i += 1;
        }
        assert(w0 < 2 && w1 == 0 && w2 == 0 && w3 == 0);
        d[63] = if carry {
            w0 as i8 + 1
        } else {
            w0 as i8
        };
        proof {
            rests = rests.push(0);
            lemma_rests(d@, rests, 0);
        }
        d
    }

    /// The signed digits of the halves of a scalar, split at bit 127.
    pub fn split_radix16(&self) -> (r: (Radix16Half, Radix16Half))
        requires
            self.wf(),
        ensures
            digits_from(r.0@, 0) + 0x8000_0000_0000_0000_0000_0000_0000_0000int * digits_from(r.1@, 0)
                == self.val(),
            digits_from(r.0@, 0) == self.val() % 0x8000_0000_0000_0000_0000_0000_0000_0000int,
            digits_small(r.0@),
            digits_small(r.1@),
    {
        proof {
            reveal(Scalar::val);
        }
        let split: u128 = 0x8000_0000_0000_0000_0000_0000_0000_0000;
        let low: u128 = self.words[0] as u128 + 0x1_0000_0000_0000_0000 * (self.words[1] as u128);
        let high: u128 = self.words[2] as u128 + 0x1_0000_0000_0000_0000 * (self.words[3] as u128);
        let lo: u128 = low % split;
        let hi: u128 = low / split + 2 * high;
        (recode_half(lo), recode_half(hi))
    }
}

} // verus!
